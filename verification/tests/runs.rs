//! Upgrades from start to end.
use edgedb_upgrade::instance::{InstallMethod, Metadata};
use edgedb_upgrade::listing::DirEntry;
use edgedb_upgrade::location::Location;
use edgedb_upgrade::options::Upgrade;
use edgedb_upgrade::run::{upgrade, UpgradeRun};
use edgedb_upgrade::task::{Action, Context, Op, Reply, Report};
use edgedb_upgrade::version::{InstalledPackage, PackageInfo, Version, VersionQuery};
use std::time::{Duration, SystemTime};

fn version(text: &str, key: &[u64]) -> Version {
    Version::new(text.to_string(), key.to_vec())
}

fn method(name: &str, key: u64) -> InstallMethod {
    InstallMethod { name: name.to_string(), title: name.to_uppercase(), key: vec![key] }
}

fn meta(major: u64, nightly: bool, how: InstallMethod) -> Metadata {
    Metadata {
        version: version(&format!("{}", major), &[major]),
        nightly,
        method: how,
        port: 5656,
        start_conf: "auto".to_string(),
    }
}

fn options() -> Upgrade {
    Upgrade { name: None, nightly: false, to_nightly: false, to_version: None, force: false }
}

fn time() -> SystemTime {
    SystemTime::UNIX_EPOCH + Duration::from_secs(1000)
}

/// What stands around a run.
struct World {
    there: bool,
    old_dump: bool,
    entries: Vec<(DirEntry, Option<Metadata>)>,
    supported: bool,
    /// The installed version that matches, where there is one.
    installed: Option<Version>,
    /// What is asked for when something fails.
    fails: Option<String>,
}

fn world(instances: &[(&str, Metadata)]) -> World {
    World {
        there: true,
        old_dump: false,
        entries: instances
            .iter()
            .map(|(name, meta)| (directory(name), Some(meta.clone())))
            .collect(),
        supported: true,
        installed: Some(version("old-1", &[1])),
        fails: None,
    }
}

fn directory(name: &str) -> DirEntry {
    DirEntry { is_dir: Some(true), name: Some(name.to_string()), valid_name: true }
}

fn path(location: &Location) -> String {
    let mut text = String::from_utf8(location.base.clone()).unwrap();
    for name in &location.names {
        text.push('/');
        text.push_str(name);
    }
    text
}

fn query(query: &VersionQuery) -> String {
    match query {
        VersionQuery::Nightly => "nightly".to_string(),
        VersionQuery::Stable(None) => "stable".to_string(),
        VersionQuery::Stable(Some(version)) => format!("stable {}", version.text),
    }
}

fn report(report: &Report) -> String {
    match report {
        Report::NameWithNightly => "name with nightly".to_string(),
        Report::NoInstances { without_nightly } => format!("no instances {}", without_nightly),
        Report::MetadataUnreadable { name } => format!("unreadable {}", name),
        Report::MethodUnavailable { title, instances } => {
            format!("unavailable {} for {}", title, instances)
        }
        Report::VersionUpToDate { version, installed, instances } => {
            format!("{} up to date {}: {}", version.text, installed.text, instances)
        }
        Report::NightlyUpToDate { installed, instances } => {
            format!("nightly up to date {}: {}", installed.text, instances)
        }
        Report::InstanceUpToDate { query: asked, installed, name } => {
            format!("instance at {} up to date {}: {}", query(asked), installed.text, name)
        }
        Report::Upgrading { version, new_version, revision, instances } => {
            format!("{} to {}-{}: {}", version.text, new_version.text, revision, instances)
        }
        Report::StopFailed { name } => format!("stop failed {}", name),
    }
}

fn op(op: &Op) -> String {
    match op {
        Op::GetControl(request) => format!("control {}", request.name),
        Op::Start { name, foreground } => {
            assert!(!foreground);
            format!("start {}", name)
        }
        Op::Stop { name } => format!("stop {}", name),
        Op::RemoveDirAll(place) => format!("remove {}", path(place)),
        Op::Connect(params) => {
            format!("connect {}", String::from_utf8(params.unix_addr.clone()).unwrap())
        }
        Op::Dump(request) => format!("dump to {}", path(&request.path)),
        Op::Rename { from, to } => format!("rename {} to {}", path(from), path(to)),
        Op::WriteBackupMeta { path: place, meta } => {
            assert_eq!(meta.timestamp, time());
            format!("record {}", path(place))
        }
        Op::Init(init) => format!(
            "init {} version {} nightly {} marker {}",
            init.name,
            init.version.as_ref().unwrap().text,
            init.nightly,
            init.upgrade_marker.as_ref().unwrap()
        ),
        Op::RunCommand => "run command".to_string(),
        Op::RunServer { args } => format!("run server {}", args.join(" ")),
        Op::Restore(request) => format!("restore from {}", path(&request.path)),
    }
}

fn describe(action: &Action) -> String {
    match action {
        Action::DataPath { system } => format!("data path {}", system),
        Action::Exists(place) => format!("exists {}", path(place)),
        Action::ReadDir(place) => format!("list {}", path(place)),
        Action::NextEntry => "next".to_string(),
        Action::ReadMetadata(place) => format!("read {}", path(place)),
        Action::CurrentOs => "os".to_string(),
        Action::AvailableMethods => "methods".to_string(),
        Action::IsSupported(method) => format!("supported {}", method.name),
        Action::MakeMethod(method) => format!("make {}", method.name),
        Action::GetVersion(asked) => format!("version {}", query(asked)),
        Action::InstalledVersions(asked) => format!("installed {}", query(asked)),
        Action::Install(settings) => format!(
            "install {} {} major {} by {} nightly {}",
            settings.package_name,
            settings.version.text,
            settings.major_version.text,
            settings.method.name,
            settings.nightly
        ),
        Action::GetSocket { admin } => format!("socket {}", admin),
        Action::Now => "now".to_string(),
        Action::Identity => "identity".to_string(),
        Action::Encode(meta) => format!("encode {}>{}", meta.source.text, meta.target.text),
        Action::EndServer => "end server".to_string(),
        Action::Do(asked) => op(asked),
        Action::Tell(told) => report(told),
    }
}

/// What the world replies. `place` is how far the listing has come.
fn reply(world: &World, action: &Action, place: &mut usize) -> Reply {
    match action {
        Action::DataPath { system: _ } => Reply::Path(b"/data".to_vec()),
        Action::Exists(location) => Reply::Answer(if location.names.is_empty() {
            world.there
        } else {
            world.old_dump
        }),
        Action::NextEntry => {
            if *place == world.entries.len() {
                Reply::End
            } else {
                let entry = &world.entries[*place].0;
                *place += 1;
                Reply::Entry(DirEntry {
                    is_dir: entry.is_dir,
                    name: entry.name.clone(),
                    valid_name: entry.valid_name,
                })
            }
        }
        Action::ReadMetadata(_) => match &world.entries[*place - 1].1 {
            Some(meta) => Reply::Metadata(meta.clone()),
            None => Reply::Failed,
        },
        Action::IsSupported(_) => Reply::Answer(world.supported),
        Action::MakeMethod(method) => Reply::Method(method.clone()),
        Action::GetVersion(_) => Reply::Package(PackageInfo {
            package_name: "edgedb".to_string(),
            major_version: version("9", &[9]),
            version: version("9.1", &[9, 1]),
            revision: "r5".to_string(),
            full_version: version("9.1-r5", &[9, 1, 5]),
        }),
        Action::InstalledVersions(_) => Reply::Packages(match &world.installed {
            Some(installed) => vec![
                InstalledPackage { full_version: version("x", &[99]), matches: false },
                InstalledPackage { full_version: installed.clone(), matches: true },
            ],
            None => Vec::new(),
        }),
        Action::GetSocket { admin: _ } => Reply::Path(b"/socket".to_vec()),
        Action::Now => Reply::Time(time()),
        Action::Identity => Reply::Identity(time(), 7),
        Action::Encode(_) => Reply::Text("M".to_string()),
        _ => Reply::Done,
    }
}

/// Runs an upgrade to its end. What was asked for, and the run.
fn play(options: &Upgrade, world: &World) -> (Vec<String>, UpgradeRun) {
    let mut run = upgrade(options);
    let mut asked = Vec::new();
    let mut place = 0;
    while let Some(action) = run.pending() {
        let text = describe(&action);
        let answer = if world.fails.as_ref() == Some(&text) {
            Reply::Failed
        } else {
            reply(world, &action, &mut place)
        };
        asked.push(text);
        assert!(run.resume(answer), "not taken: {:?}", asked.last());
    }
    (asked, run)
}

/// What is asked for after the method is made ready.
fn upgrades(asked: Vec<String>) -> Vec<String> {
    let start = asked.iter().position(|text| text.starts_with("make ")).unwrap();
    asked[start + 1..].to_vec()
}

fn contexts(run: &UpgradeRun) -> Vec<String> {
    run.failure()
        .as_ref()
        .unwrap()
        .iter()
        .map(|context| match context {
            Context::DeterminingVersion => "version".to_string(),
            Context::ListingInstances(place) => format!("listing {}", path(place)),
            Context::DeterminingEntryType(place) => format!("type in {}", path(place)),
            Context::WritingBackupMeta(place) => format!("record {}", path(place)),
            Context::RunningServer => "server".to_string(),
            Context::Dumping(name) => format!("dump {}", name),
            Context::Restoring(name) => format!("restore {}", name),
        })
        .collect()
}

#[test]
fn a_missing_directory_means_no_instances() {
    let nowhere = World { there: false, ..world(&[]) };
    let (asked, run) = play(&options(), &nowhere);
    assert_eq!(asked, vec!["data path false", "exists /data", "no instances true"]);
    assert!(run.failure().is_none());
}

#[test]
fn nightlies_need_the_option() {
    let (asked, run) = play(&options(), &world(&[("n", meta(1, true, method("package", 0)))]));
    assert_eq!(
        asked,
        vec![
            "data path false",
            "exists /data",
            "list /data",
            "next",
            "read /data/n/metadata.json",
            "next",
            "no instances true"
        ]
    );
    assert!(run.failure().is_none());
}

#[test]
fn what_is_no_instance_is_passed_over() {
    let mut mixed = world(&[("a", meta(1, false, method("package", 0)))]);
    mixed.entries.insert(
        0,
        (DirEntry { is_dir: Some(false), name: Some("f".to_string()), valid_name: true }, None),
    );
    mixed.entries.insert(
        1,
        (DirEntry { is_dir: Some(true), name: Some("a.dump".to_string()), valid_name: false }, None),
    );
    mixed.entries.insert(2, (directory("broken"), None));
    mixed.entries.push((DirEntry { is_dir: Some(true), name: None, valid_name: false }, None));
    mixed.installed = Some(version("10", &[10]));
    let (asked, run) = play(&options(), &mixed);
    assert_eq!(
        asked,
        vec![
            "data path false",
            "exists /data",
            "list /data",
            "next",
            "next",
            "next",
            "read /data/broken/metadata.json",
            "unreadable broken",
            "next",
            "read /data/a/metadata.json",
            "next",
            "next",
            "os",
            "methods",
            "supported package",
            "make package",
            "version stable 1",
            "installed stable 1",
            "1 up to date 10: a"
        ]
    );
    assert!(run.failure().is_none());
}

#[test]
fn a_minor_upgrade_stops_installs_and_starts() {
    let instances = [
        ("a", meta(2, false, method("package", 0))),
        ("b", meta(1, false, method("package", 0))),
        ("c", meta(2, false, method("package", 0))),
    ];
    let (asked, run) = play(&options(), &world(&instances));
    assert_eq!(
        upgrades(asked),
        vec![
            "version stable 1",
            "installed stable 1",
            "1 to 9.1-r5: b",
            "control b",
            "stop b",
            "install edgedb 9.1 major 1 by package nightly false",
            "control b",
            "start b",
            "version stable 2",
            "installed stable 2",
            "2 to 9.1-r5: a, c",
            "control a",
            "stop a",
            "control c",
            "stop c",
            "install edgedb 9.1 major 2 by package nightly false",
            "control a",
            "start a",
            "control c",
            "start c"
        ]
    );
    assert!(run.failure().is_none());
}

#[test]
fn a_major_version_up_to_date_ends_the_minor_upgrade_of_the_method() {
    let instances = [
        ("a", meta(1, false, method("package", 0))),
        ("b", meta(2, false, method("package", 0))),
        ("c", meta(1, false, method("docker", 1))),
    ];
    let current = World { installed: Some(version("9.1-r5", &[9, 1, 5])), ..world(&instances) };
    let (asked, run) = play(&options(), &current);
    assert_eq!(
        upgrades(asked),
        vec![
            "version stable 1",
            "installed stable 1",
            "1 up to date 9.1-r5: a",
            "supported docker",
            "make docker",
            "version stable 1",
            "installed stable 1",
            "1 up to date 9.1-r5: c"
        ]
    );
    assert!(run.failure().is_none());
}

#[test]
fn a_stop_that_fails_is_only_told() {
    let mut stuck = world(&[("a", meta(1, false, method("package", 0)))]);
    stuck.fails = Some("stop a".to_string());
    let (asked, run) = play(&options(), &stuck);
    assert_eq!(
        upgrades(asked)[3..],
        [
            "control a",
            "stop a",
            "stop failed a",
            "install edgedb 9.1 major 1 by package nightly false",
            "control a",
            "start a"
        ]
    );
    assert!(run.failure().is_none());
}

#[test]
fn an_unavailable_method_is_passed_over() {
    let instances = [
        ("a", meta(1, false, method("package", 3))),
        ("b", meta(2, false, method("package", 3))),
        ("c", meta(1, false, method("docker", 1))),
    ];
    let without = World { supported: false, ..world(&instances) };
    let (asked, run) = play(&options(), &without);
    assert_eq!(
        asked[asked.len() - 6..],
        [
            "os",
            "methods",
            "supported docker",
            "unavailable DOCKER for c",
            "supported package",
            "unavailable PACKAGE for a, b"
        ]
    );
    assert!(run.failure().is_none());
}

#[test]
fn a_nightly_upgrade_dumps_all_before_it_installs() {
    let instances = [
        ("a", meta(1, true, method("package", 0))),
        ("s", meta(1, false, method("package", 0))),
        ("b", meta(2, true, method("package", 0))),
    ];
    let asked_for = Upgrade { nightly: true, ..options() };
    let (asked, run) = play(&asked_for, &world(&instances));
    assert_eq!(
        upgrades(asked),
        vec![
            "version nightly",
            "installed nightly",
            "control a",
            "start a",
            "socket true",
            "data path false",
            "exists /data/a.dump",
            "connect /socket",
            "dump to /data/a.dump",
            "stop a",
            "control b",
            "start b",
            "socket true",
            "data path false",
            "exists /data/b.dump",
            "connect /socket",
            "dump to /data/b.dump",
            "stop b",
            "install edgedb 9.1 major 9 by package nightly true",
            "rename /data/a to /data/a.backup",
            "now",
            "record /data/a.backup/backup.json",
            "identity",
            "encode old-1>9.1-r5",
            "init a version 9 nightly true marker M",
            "control a",
            "run command",
            "run server --default-database=edgedb --default-database-user=edgedb",
            "socket true",
            "connect /socket",
            "restore from /data/a.dump",
            "end server",
            "start a",
            "rename /data/b to /data/b.backup",
            "now",
            "record /data/b.backup/backup.json",
            "identity",
            "encode old-1>9.1-r5",
            "init b version 9 nightly true marker M",
            "control b",
            "run command",
            "run server --default-database=edgedb --default-database-user=edgedb",
            "socket true",
            "connect /socket",
            "restore from /data/b.dump",
            "end server",
            "start b"
        ]
    );
    assert!(run.failure().is_none());
}

#[test]
fn a_nightly_up_to_date_is_left_alone() {
    let instances = [
        ("a", meta(1, true, method("package", 0))),
        ("b", meta(2, true, method("package", 0))),
    ];
    let current = World { installed: Some(version("9.2", &[9, 2])), ..world(&instances) };
    let asked_for = Upgrade { nightly: true, ..options() };
    let (asked, _) = play(&asked_for, &current);
    assert_eq!(
        upgrades(asked),
        vec!["version nightly", "installed nightly", "nightly up to date 9.2: a, b"]
    );
}

#[test]
fn a_named_upgrade_concerns_the_one_instance() {
    let instances = [
        ("a", meta(1, false, method("package", 0))),
        ("b", meta(1, false, method("package", 0))),
    ];
    let asked_for = Upgrade {
        name: Some("b".to_string()),
        to_version: Some(version("8", &[8])),
        ..options()
    };
    let around = World { installed: None, old_dump: true, ..world(&instances) };
    let (asked, run) = play(&asked_for, &around);
    assert_eq!(
        upgrades(asked),
        vec![
            "version stable 8",
            "installed stable 8",
            "control b",
            "start b",
            "socket true",
            "data path false",
            "exists /data/b.dump",
            "remove /data/b.dump",
            "connect /socket",
            "dump to /data/b.dump",
            "stop b",
            "install edgedb 9.1 major 9 by package nightly false",
            "rename /data/b to /data/b.backup",
            "now",
            "record /data/b.backup/backup.json",
            "identity",
            "encode unknown>9.1-r5",
            "init b version 9.1 nightly false marker M",
            "control b",
            "run command",
            "run server --default-database=edgedb --default-database-user=edgedb",
            "socket true",
            "connect /socket",
            "restore from /data/b.dump",
            "end server",
            "start b"
        ]
    );
    assert!(run.failure().is_none());
}

#[test]
fn a_named_upgrade_up_to_date_is_told() {
    let current = World {
        installed: Some(version("9.1-r5", &[9, 1, 5])),
        ..world(&[("a", meta(1, false, method("package", 0)))])
    };
    let asked_for = Upgrade {
        name: Some("a".to_string()),
        nightly: true,
        to_nightly: true,
        ..options()
    };
    let (asked, run) = play(&asked_for, &current);
    assert_eq!(asked[0], "name with nightly");
    assert_eq!(
        upgrades(asked),
        vec!["version nightly", "installed nightly", "instance at nightly up to date 9.1-r5: a"]
    );
    assert!(run.failure().is_none());
}

#[test]
fn a_forced_upgrade_is_done_though_up_to_date() {
    let current = World {
        installed: Some(version("9.1-r5", &[9, 1, 5])),
        ..world(&[("a", meta(1, false, method("package", 0)))])
    };
    let asked_for = Upgrade { force: true, ..options() };
    let (asked, _) = play(&asked_for, &current);
    assert!(asked.contains(&"install edgedb 9.1 major 1 by package nightly false".to_string()));
    assert_eq!(asked.last().unwrap(), "start a");
}

#[test]
fn a_name_that_is_not_there_is_told() {
    let asked_for = Upgrade { name: Some("z".to_string()), nightly: true, ..options() };
    let (asked, run) = play(&asked_for, &world(&[("a", meta(1, false, method("package", 0)))]));
    assert_eq!(asked.last().unwrap(), "no instances false");
    assert!(run.failure().is_none());
}

/// Plays a named upgrade in which something fails. What was asked for last, and
/// what was being done.
fn fail_at(what: &str) -> (String, Vec<String>) {
    let mut around = world(&[("a", meta(1, false, method("package", 0)))]);
    around.fails = Some(what.to_string());
    around.old_dump = true;
    let asked_for = Upgrade { name: Some("a".to_string()), ..options() };
    let (asked, run) = play(&asked_for, &around);
    (asked.last().unwrap().clone(), contexts(&run))
}

#[test]
fn failures_before_the_upgrade_end_the_run() {
    for what in [
        "data path false",
        "list /data",
        "os",
        "methods",
        "make package",
        "installed stable",
        "install edgedb 9.1 major 9 by package nightly false",
    ] {
        let (last, contexts) = fail_at(what);
        assert_eq!(last, what);
        assert!(contexts.is_empty());
    }
    assert_eq!(fail_at("next"), ("next".to_string(), vec!["listing /data".to_string()]));
    assert_eq!(
        fail_at("version stable"),
        ("version stable".to_string(), vec!["version".to_string()])
    );
}

#[test]
fn failures_of_a_dump_name_the_instance() {
    for what in [
        "control a",
        "start a",
        "socket true",
        "remove /data/a.dump",
        "connect /socket",
        "dump to /data/a.dump",
        "stop a",
    ] {
        let (last, contexts) = fail_at(what);
        assert_eq!(last, what);
        assert_eq!(contexts, vec!["dump a"]);
    }
}

#[test]
fn failures_of_a_restore_name_the_instance() {
    for what in [
        "rename /data/a to /data/a.backup",
        "init a version 9.1 nightly false marker M",
        "run command",
    ] {
        let (last, contexts) = fail_at(what);
        assert_eq!(last, what);
        assert_eq!(contexts, vec!["restore a"]);
    }
    let (last, contexts) = fail_at("record /data/a.backup/backup.json");
    assert_eq!(last, "record /data/a.backup/backup.json");
    assert_eq!(contexts, vec!["record /data/a.backup/backup.json", "restore a"]);
    let run_server = "run server --default-database=edgedb --default-database-user=edgedb";
    let (last, contexts) = fail_at(run_server);
    assert_eq!(last, run_server);
    assert_eq!(contexts, vec!["server", "restore a"]);
}

#[test]
fn a_running_server_is_ended_after_a_failure() {
    let (last, contexts) = fail_at("restore from /data/a.dump");
    assert_eq!(last, "end server");
    assert_eq!(contexts, vec!["restore a"]);
}

#[test]
fn an_entry_without_a_type_ends_the_run() {
    let mut odd = world(&[("a", meta(1, false, method("package", 0)))]);
    odd.entries.push((DirEntry { is_dir: None, name: Some("b".to_string()), valid_name: true }, None));
    let (asked, run) = play(&options(), &odd);
    assert_eq!(asked.last().unwrap(), "next");
    assert_eq!(contexts(&run), vec!["type in /data"]);
}

#[test]
fn a_failure_in_one_method_ends_the_run() {
    let instances = [
        ("a", meta(1, false, method("docker", 0))),
        ("b", meta(1, false, method("package", 1))),
    ];
    let mut around = world(&instances);
    around.fails = Some("start a".to_string());
    let (asked, run) = play(&options(), &around);
    assert_eq!(asked.last().unwrap(), "start a");
    assert!(contexts(&run).is_empty());
    assert!(!asked.contains(&"supported package".to_string()));
}

#[test]
fn a_reply_to_something_else_is_not_taken() {
    let mut run = upgrade(&options());
    assert!(!run.resume(Reply::Done));
    assert!(!run.resume(Reply::Answer(true)));
    assert!(!run.resume(Reply::End));
    assert!(matches!(run.pending(), Some(Action::DataPath { system: false })));
    assert!(run.resume(Reply::Path(b"/data".to_vec())));
    assert!(!run.resume(Reply::Failed));
    assert!(run.resume(Reply::Answer(false)));
    assert!(!run.resume(Reply::Failed));
    assert!(run.resume(Reply::Done));
    assert!(run.pending().is_none());
    assert!(!run.resume(Reply::Done));
    assert!(run.failure().is_none());
}

#[test]
fn a_run_takes_a_bounded_number_of_replies() {
    let instances = [
        ("a", meta(1, true, method("package", 0))),
        ("b", meta(2, true, method("package", 0))),
    ];
    let around = World { old_dump: true, ..world(&instances) };
    let asked_for = Upgrade { nightly: true, ..options() };
    let (asked, _) = play(&asked_for, &around);
    let start = asked.iter().position(|text| text == "os").unwrap();
    assert_eq!(asked.len() - start, 53);
    assert!(asked.len() - start <= 2 + (5 + 26 * 2));
}

#[test]
fn a_failed_run_stays_failed() {
    let mut around = world(&[("a", meta(1, false, method("package", 0)))]);
    around.fails = Some("version stable 1".to_string());
    let (_, mut run) = play(&options(), &around);
    assert!(run.pending().is_none());
    assert!(!run.resume(Reply::Done));
    assert!(!run.resume(Reply::Failed));
    assert_eq!(contexts(&run), vec!["version"]);
}

#[test]
fn every_restore_reads_a_dump_that_was_done() {
    let instances = [
        ("a", meta(1, true, method("docker", 0))),
        ("b", meta(2, true, method("package", 1))),
    ];
    let asked_for = Upgrade { nightly: true, ..options() };
    let (asked, _) = play(&asked_for, &world(&instances));
    for name in ["a", "b"] {
        let find = |text: String| asked.iter().position(|other| *other == text).unwrap();
        let dump = find(format!("dump to /data/{}.dump", name));
        let rename = find(format!("rename /data/{} to /data/{}.backup", name, name));
        let restore = find(format!("restore from /data/{}.dump", name));
        assert!(dump < rename && rename < restore);
    }
}

#[test]
fn the_order_of_the_listing_leaves_the_installs() {
    let instances = [
        ("a", meta(2, false, method("package", 0))),
        ("b", meta(1, false, method("package", 0))),
        ("c", meta(2, false, method("package", 0))),
        ("d", meta(3, false, method("package", 0))),
    ];
    let mut turned = instances.clone();
    turned.reverse();
    for fails in [None, Some("control c"), Some("start b"), Some("version stable 3")] {
        let fails = fails.map(|text| text.to_string());
        let one = World { fails: fails.clone(), ..world(&instances) };
        let other = World { fails, ..world(&turned) };
        let (one_asked, one_run) = play(&options(), &one);
        let (other_asked, other_run) = play(&options(), &other);
        let installs = |asked: &[String]| -> Vec<String> {
            asked.iter().filter(|text| text.starts_with("install ")).cloned().collect()
        };
        assert_eq!(installs(&one_asked), installs(&other_asked));
        assert_eq!(one_run.failure().is_some(), other_run.failure().is_some());
    }
}

#[test]
fn a_success_dumps_initializes_and_restores_each_nightly() {
    let instances = [
        ("a", meta(1, true, method("package", 0))),
        ("b", meta(2, false, method("package", 0))),
        ("c", meta(2, true, method("package", 0))),
    ];
    let asked_for = Upgrade { nightly: true, ..options() };
    let (asked, run) = play(&asked_for, &world(&instances));
    assert!(run.failure().is_none());
    for (name, times) in [("a", 1), ("b", 0), ("c", 1)] {
        for what in [
            format!("dump to /data/{}.dump", name),
            format!("record /data/{}.backup/backup.json", name),
            format!("init {} version 9 nightly true marker M", name),
            format!("restore from /data/{}.dump", name),
        ] {
            assert_eq!(asked.iter().filter(|text| **text == what).count(), times);
        }
    }
}

#[test]
fn a_forced_minor_upgrade_installs_every_major_version_in_order() {
    let instances = [
        ("a", meta(3, false, method("package", 0))),
        ("b", meta(1, false, method("package", 0))),
        ("c", meta(2, false, method("package", 0))),
        ("d", meta(1, false, method("package", 0))),
    ];
    let current = World { installed: Some(version("10", &[10])), ..world(&instances) };
    let installs = |options: &Upgrade| -> Vec<String> {
        let (asked, run) = play(options, &current);
        assert!(run.failure().is_none());
        asked.into_iter().filter(|text| text.starts_with("install ")).collect()
    };
    assert!(installs(&options()).is_empty());
    assert_eq!(
        installs(&Upgrade { force: true, ..options() }),
        vec![
            "install edgedb 9.1 major 1 by package nightly false",
            "install edgedb 9.1 major 2 by package nightly false",
            "install edgedb 9.1 major 3 by package nightly false"
        ]
    );
}

#[test]
fn no_instance_but_a_wanted_one_is_started_or_stopped() {
    let instances = [
        ("a", meta(1, false, method("package", 0))),
        ("n", meta(1, true, method("package", 0))),
    ];
    for (asked_for, name) in [(options(), "a"), (Upgrade { nightly: true, ..options() }, "n")] {
        let (asked, _) = play(&asked_for, &world(&instances));
        for verb in ["start", "stop", "control"] {
            let found: Vec<&String> =
                asked.iter().filter(|text| text.starts_with(&format!("{} ", verb))).collect();
            assert!(!found.is_empty());
            assert!(found.iter().all(|text| **text == format!("{} {}", verb, name)));
        }
    }
}
