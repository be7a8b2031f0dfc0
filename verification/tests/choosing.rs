//! What is asked for, which instances it concerns, and what needs doing.
use edgedb_upgrade::instance::{Instance, InstallMethod, Metadata};
use edgedb_upgrade::listing::{DirEntry, InstanceIterator, Item};
use edgedb_upgrade::location::{EntryPath, Location};
use edgedb_upgrade::options::{interpret_options, ToDo, Upgrade};
use edgedb_upgrade::order::{compare_keys, KeyOrder};
use edgedb_upgrade::run::{group_by_major, group_by_method, start_upgrade};
use edgedb_upgrade::selection::{get_instances, group_instances, join_names, Grouping};
use edgedb_upgrade::task::{Report, Work};
use edgedb_upgrade::version::{
    get_installed, is_up_to_date, InstalledPackage, Version, VersionQuery,
};

fn version(text: &str, key: &[u64]) -> Version {
    Version::new(text.to_string(), key.to_vec())
}

fn method(name: &str, key: u64) -> InstallMethod {
    InstallMethod { name: name.to_string(), title: name.to_uppercase(), key: vec![key] }
}

fn instance(name: &str, major: u64, nightly: bool, how: InstallMethod) -> Instance {
    Instance {
        name: name.to_string(),
        meta: Metadata {
            version: version(&format!("{}", major), &[major]),
            nightly,
            method: how,
            port: 5656,
            start_conf: "auto".to_string(),
        },
        system: false,
        data_dir: EntryPath {
            parent: Location::top(b"/data".to_vec()),
            file_name: name.to_string(),
        },
        source: None,
        version: None,
    }
}

fn options() -> Upgrade {
    Upgrade { name: None, nightly: false, to_nightly: false, to_version: None, force: false }
}

fn names(instances: &[Instance]) -> Vec<String> {
    instances.iter().map(|one| one.name.clone()).collect()
}

fn package(text: &str, key: &[u64], matches: bool) -> InstalledPackage {
    InstalledPackage { full_version: version(text, key), matches }
}

#[test]
fn no_options_ask_for_a_minor_upgrade() {
    assert!(matches!(interpret_options(&options()), ToDo::MinorUpgrade));
}

#[test]
fn nightly_alone_asks_for_a_nightly_upgrade() {
    let asked = Upgrade { nightly: true, ..options() };
    assert!(matches!(interpret_options(&asked), ToDo::NightlyUpgrade));
}

#[test]
fn to_nightly_without_a_name_is_a_minor_upgrade() {
    let asked = Upgrade {
        to_nightly: true,
        to_version: Some(version("2", &[2])),
        force: true,
        ..options()
    };
    assert!(matches!(interpret_options(&asked), ToDo::MinorUpgrade));
}

#[test]
fn a_name_goes_before_nightly() {
    let asked = Upgrade { name: Some("one".to_string()), nightly: true, ..options() };
    match interpret_options(&asked) {
        ToDo::InstanceUpgrade(name, VersionQuery::Stable(None)) => assert_eq!(name, "one"),
        other => panic!("{:?}", other),
    }
}

#[test]
fn to_nightly_goes_before_to_version() {
    let asked = Upgrade {
        name: Some("one".to_string()),
        to_nightly: true,
        to_version: Some(version("1-alpha5", &[1, 5])),
        ..options()
    };
    match interpret_options(&asked) {
        ToDo::InstanceUpgrade(name, query) => {
            assert_eq!(name, "one");
            assert!(query.is_nightly());
        }
        other => panic!("{:?}", other),
    }
}

#[test]
fn to_version_is_asked_for() {
    let asked = Upgrade {
        name: Some("one".to_string()),
        to_version: Some(version("1-alpha5", &[1, 5])),
        ..options()
    };
    match interpret_options(&asked) {
        ToDo::InstanceUpgrade(_, VersionQuery::Stable(Some(found))) => {
            assert_eq!(found.text, "1-alpha5");
            assert_eq!(found.key, vec![1, 5]);
        }
        other => panic!("{:?}", other),
    }
}

#[test]
fn each_upgrade_has_its_instances() {
    let all = vec![
        instance("a", 1, false, method("package", 0)),
        instance("b", 1, true, method("package", 0)),
        instance("c", 2, false, method("docker", 1)),
        instance("d", 2, true, method("docker", 1)),
    ];
    assert_eq!(names(&get_instances(&ToDo::MinorUpgrade, &all)), vec!["a", "c"]);
    assert_eq!(names(&get_instances(&ToDo::NightlyUpgrade, &all)), vec!["b", "d"]);
    let one = ToDo::InstanceUpgrade("d".to_string(), VersionQuery::Stable(None));
    assert_eq!(names(&get_instances(&one, &all)), vec!["d"]);
    let none = ToDo::InstanceUpgrade("e".to_string(), VersionQuery::Nightly);
    assert!(get_instances(&none, &all).is_empty());
    assert!(get_instances(&ToDo::MinorUpgrade, &Vec::new()).is_empty());
}

#[test]
fn names_are_joined_by_commas() {
    assert_eq!(join_names(&Vec::new()), "");
    let one = vec![instance("a", 1, false, method("package", 0))];
    assert_eq!(join_names(&one), "a");
    let three = vec![
        instance("a", 1, false, method("package", 0)),
        instance("", 1, false, method("package", 0)),
        instance("c", 1, false, method("package", 0)),
    ];
    assert_eq!(join_names(&three), "a, , c");
}

#[test]
fn keys_are_compared_by_component() {
    assert_eq!(compare_keys(&vec![1, 9], &vec![2]), KeyOrder::Less);
    assert_eq!(compare_keys(&vec![2], &vec![1, 9]), KeyOrder::Greater);
    assert_eq!(compare_keys(&vec![1], &vec![1, 0]), KeyOrder::Less);
    assert_eq!(compare_keys(&vec![1, 0], &vec![1]), KeyOrder::Greater);
    assert_eq!(compare_keys(&vec![1, 0], &vec![1, 0]), KeyOrder::Equal);
    assert_eq!(compare_keys(&vec![], &vec![]), KeyOrder::Equal);
    assert_eq!(compare_keys(&vec![], &vec![0]), KeyOrder::Less);
}

#[test]
fn groups_stand_in_order_and_keep_the_order_within() {
    let all = vec![
        instance("a", 3, false, method("package", 7)),
        instance("b", 1, false, method("docker", 2)),
        instance("c", 3, false, method("docker", 2)),
        instance("d", 2, false, method("package", 7)),
        instance("e", 1, false, method("package", 7)),
    ];
    let by_major: Vec<Vec<String>> = group_instances(all.clone(), Grouping::Major)
        .iter()
        .map(|group| names(group))
        .collect();
    assert_eq!(by_major, vec![vec!["b", "e"], vec!["d"], vec!["a", "c"]]);
    let by_method: Vec<Vec<String>> = group_instances(all, Grouping::Method)
        .iter()
        .map(|group| names(group))
        .collect();
    assert_eq!(by_method, vec![vec!["b", "c"], vec!["a", "d", "e"]]);
    assert!(group_instances(Vec::new(), Grouping::Major).is_empty());
}

#[test]
fn a_group_goes_by_its_first_instance() {
    let mut second = instance("b", 1, false, method("package", 0));
    second.meta.version.text = "1 as well".to_string();
    second.meta.method.title = "another title".to_string();
    let all = vec![instance("a", 1, false, method("package", 0)), second];
    let majors = group_by_major(all.clone());
    assert_eq!(majors.len(), 1);
    assert_eq!(majors[0].version.text, "1");
    assert_eq!(names(&majors[0].instances), vec!["a", "b"]);
    let methods = group_by_method(all);
    assert_eq!(methods.len(), 1);
    assert_eq!(methods[0].method.title, "PACKAGE");
    assert_eq!(names(&methods[0].instances), vec!["a", "b"]);
}

#[test]
fn the_first_match_is_the_installed_version() {
    assert!(get_installed(&Vec::new()).is_none());
    assert!(get_installed(&vec![package("1", &[1], false)]).is_none());
    let found = get_installed(&vec![
        package("3", &[3], false),
        package("1", &[1], true),
        package("2", &[2], true),
    ]);
    assert_eq!(found.map(|found| found.text), Some("1".to_string()));
}

#[test]
fn up_to_date_needs_a_version_that_is_no_older() {
    let old = version("1.2", &[1, 2]);
    let same = version("1.2", &[1, 2]);
    let newer = version("1.3", &[1, 3]);
    let older = version("1.1", &[1, 1]);
    assert!(is_up_to_date(&Some(old.clone()), &same, false));
    assert!(is_up_to_date(&Some(old.clone()), &older, false));
    assert!(!is_up_to_date(&Some(old.clone()), &newer, false));
    assert!(!is_up_to_date(&Some(old.clone()), &same, true));
    assert!(!is_up_to_date(&Some(old), &older, true));
    assert!(!is_up_to_date(&None, &older, false));
}

#[test]
fn at_least_goes_by_the_key() {
    assert!(version("b", &[1]).at_least(&version("a", &[1])));
    assert!(version("a", &[2]).at_least(&version("z", &[1])));
    assert!(!version("z", &[1]).at_least(&version("a", &[2])));
}

fn entry(is_dir: Option<bool>, name: Option<&str>, valid_name: bool) -> DirEntry {
    DirEntry { is_dir, name: name.map(|name| name.to_string()), valid_name }
}

#[test]
fn only_directories_with_valid_names_are_candidates() {
    let listing = InstanceIterator::at(Location::top(b"/data".to_vec()));
    assert!(matches!(listing.read_item(entry(None, Some("a"), true)), Item::Untyped));
    assert!(matches!(listing.read_item(entry(None, None, false)), Item::Untyped));
    assert!(matches!(listing.read_item(entry(Some(false), Some("a"), true)), Item::Skipped));
    assert!(matches!(listing.read_item(entry(Some(true), None, true)), Item::Skipped));
    assert!(matches!(listing.read_item(entry(Some(true), Some("a.b"), false)), Item::Skipped));
    match listing.read_item(entry(Some(true), Some("a"), true)) {
        Item::Candidate(name) => assert_eq!(name, "a"),
        other => panic!("{:?}", other),
    }
}

#[test]
fn an_instance_that_is_found_stands_in_the_directory() {
    let mut listing = InstanceIterator::at(Location::top(b"/data".to_vec()));
    let meta = instance("a", 1, true, method("package", 0)).meta;
    listing.found("a".to_string(), meta);
    assert_eq!(listing.found.len(), 1);
    let found = &listing.found[0];
    assert_eq!(found.name, "a");
    assert!(!found.system);
    assert!(found.meta.nightly);
    assert_eq!(found.data_dir.parent.base, b"/data".to_vec());
    assert!(found.data_dir.parent.names.is_empty());
    assert_eq!(found.data_dir.file_name, "a");
    assert!(found.source.is_none());
    assert!(found.version.is_none());
    let path = listing.metadata_path(&"a".to_string());
    assert_eq!(path.base, b"/data".to_vec());
    assert_eq!(path.names, vec!["a", "metadata.json"]);
}

#[test]
fn nothing_found_is_told() {
    let tasks = start_upgrade(&options(), &Vec::new());
    assert_eq!(tasks.len(), 1);
    assert!(matches!(
        tasks[0].work,
        Work::Tell(Report::NoInstances { without_nightly: true })
    ));
    let asked = Upgrade { nightly: true, ..options() };
    let all = vec![instance("a", 1, false, method("package", 0))];
    let tasks = start_upgrade(&asked, &all);
    assert!(matches!(
        tasks[0].work,
        Work::Tell(Report::NoInstances { without_nightly: false })
    ));
}
