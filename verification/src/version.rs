//! Versions, queries for a version, and the packages that carry them.
use crate::order::{compare_keys, key_less, KeyOrder};
use vstd::prelude::*;

verus! {

/// A version: its text, and the key that it is ordered by.
///
/// Two versions with the same key are the same version to the order, whatever
/// their texts.
#[derive(Debug)]
pub struct Version {
    pub text: String,
    pub key: Vec<u64>,
}

#[verifier::ext_equal]
pub struct VersionView {
    pub text: Seq<char>,
    pub key: Seq<u64>,
}

impl View for Version {
    type V = VersionView;

    open spec fn view(&self) -> VersionView {
        VersionView { text: self.text@, key: self.key@ }
    }
}

impl DeepView for Version {
    type V = VersionView;

    open spec fn deep_view(&self) -> VersionView {
        self@
    }
}

impl Clone for Version {
    fn clone(&self) -> (copy: Self)
        ensures
            copy@ == self@,
    {
        let key = self.key.clone();
        assert(key@ =~= self.key@);
        Version { text: self.text.clone(), key }
    }
}

impl VersionView {
    /// This version is the same as `other` or a later one.
    pub open spec fn at_least(self, other: VersionView) -> bool {
        !key_less(self.key, other.key)
    }
}

impl Version {
    pub fn new(text: String, key: Vec<u64>) -> (version: Version)
        ensures
            version.text == text,
            version.key == key,
    {
        Version { text, key }
    }

    /// Whether this version is the same as `other` or a later one.
    pub fn at_least(&self, other: &Version) -> (yes: bool)
        ensures
            yes == self@.at_least(other@),
    {
        match compare_keys(&self.key, &other.key) {
            KeyOrder::Less => false,
            _ => true,
        }
    }
}

/// What version is asked for.
#[derive(Debug)]
pub enum VersionQuery {
    /// The current nightly.
    Nightly,
    /// A stable version: of the given major version, or the latest one.
    Stable(Option<Version>),
}

#[verifier::ext_equal]
pub enum VersionQueryView {
    Nightly,
    Stable(Option<VersionView>),
}

impl View for VersionQuery {
    type V = VersionQueryView;

    open spec fn view(&self) -> VersionQueryView {
        match self {
            VersionQuery::Nightly => VersionQueryView::Nightly,
            VersionQuery::Stable(version) => VersionQueryView::Stable(version.deep_view()),
        }
    }
}

/// Copies an optional version.
pub fn copy_version(version: &Option<Version>) -> (copy: Option<Version>)
    ensures
        copy.deep_view() == version.deep_view(),
{
    match version {
        Some(version) => Some(version.clone()),
        None => None,
    }
}

impl Clone for VersionQuery {
    fn clone(&self) -> (copy: Self)
        ensures
            copy@ == self@,
    {
        match self {
            VersionQuery::Nightly => VersionQuery::Nightly,
            VersionQuery::Stable(version) => VersionQuery::Stable(copy_version(version)),
        }
    }
}

impl VersionQuery {
    /// Whether the nightly is asked for.
    pub fn is_nightly(&self) -> (yes: bool)
        ensures
            yes == (self@ is Nightly),
    {
        match self {
            VersionQuery::Nightly => true,
            VersionQuery::Stable(_) => false,
        }
    }
}

/// A package that can be installed.
#[derive(Debug)]
pub struct PackageInfo {
    pub package_name: String,
    pub major_version: Version,
    pub version: Version,
    pub revision: String,
    /// The version together with the revision.
    pub full_version: Version,
}

#[verifier::ext_equal]
pub struct PackageInfoView {
    pub package_name: Seq<char>,
    pub major_version: VersionView,
    pub version: VersionView,
    pub revision: Seq<char>,
    pub full_version: VersionView,
}

impl View for PackageInfo {
    type V = PackageInfoView;

    open spec fn view(&self) -> PackageInfoView {
        PackageInfoView {
            package_name: self.package_name@,
            major_version: self.major_version@,
            version: self.version@,
            revision: self.revision@,
            full_version: self.full_version@,
        }
    }
}

/// A package that is installed, held against the query it was listed for.
#[derive(Debug)]
pub struct InstalledPackage {
    /// The version together with the revision.
    pub full_version: Version,
    /// Whether the package is one that the query asks for.
    pub matches: bool,
}

#[verifier::ext_equal]
pub struct InstalledPackageView {
    pub full_version: VersionView,
    pub matches: bool,
}

impl View for InstalledPackage {
    type V = InstalledPackageView;

    open spec fn view(&self) -> InstalledPackageView {
        InstalledPackageView { full_version: self.full_version@, matches: self.matches }
    }
}

impl DeepView for InstalledPackage {
    type V = InstalledPackageView;

    open spec fn deep_view(&self) -> InstalledPackageView {
        self@
    }
}

/// The full version of the first package that matches.
pub open spec fn installed_version(packages: Seq<InstalledPackageView>) -> Option<VersionView>
    decreases packages.len(),
{
    if packages.len() == 0 {
        None
    } else if packages[0].matches {
        Some(packages[0].full_version)
    } else {
        installed_version(packages.drop_first())
    }
}

/// The installed version that a query finds: that of the first package listed
/// that matches.
pub fn get_installed(packages: &Vec<InstalledPackage>) -> (found: Option<Version>)
    ensures
        found.deep_view() == installed_version(packages.deep_view()),
        found is Some <==> exists|i: int|
            0 <= i < packages.len() && (#[trigger] packages[i]).matches,
{
    let mut i: usize = 0;
    assert(packages.deep_view().skip(0) == packages.deep_view());
    while i < packages.len()
        invariant
            i <= packages.len(),
            installed_version(packages.deep_view()) == installed_version(
                packages.deep_view().skip(i as int),
            ),
            forall|j: int| 0 <= j < i ==> !(#[trigger] packages[j]).matches,
        decreases packages.len() - i,
    {
        if packages[i].matches {
            return Some(packages[i].full_version.clone());
        }
        assert(packages.deep_view().skip(i as int).drop_first() == packages.deep_view().skip(
            i + 1,
        ));
        i = i + 1;
    }
    None
}

/// Nothing is to be done: a matching version is installed that is no older
/// than the one on offer, and the upgrade is not forced.
pub open spec fn up_to_date(
    old_version: Option<VersionView>,
    new_version: VersionView,
    force: bool,
) -> bool {
    !force && old_version is Some && old_version->0.at_least(new_version)
}

/// Whether nothing is to be done.
pub fn is_up_to_date(old_version: &Option<Version>, new_version: &Version, force: bool) -> (yes:
    bool)
    ensures
        yes == up_to_date(old_version.deep_view(), new_version@, force),
{
    if force {
        return false;
    }
    match old_version {
        Some(old_version) => old_version.at_least(new_version),
        None => false,
    }
}

} // verus!
