//! Places in the file system.
use vstd::prelude::*;
use vstd::string::StringExecFns;

verus! {

/// A path: the bytes of a directory's path, and the names that lead on from
/// there.
#[derive(Debug)]
pub struct Location {
    pub base: Vec<u8>,
    pub names: Vec<String>,
}

#[verifier::ext_equal]
pub struct LocationView {
    pub base: Seq<u8>,
    pub names: Seq<Seq<char>>,
}

impl View for Location {
    type V = LocationView;

    open spec fn view(&self) -> LocationView {
        LocationView { base: self.base@, names: self.names.deep_view() }
    }
}

/// Copies a sequence of bytes.
pub fn copy_bytes(bytes: &Vec<u8>) -> (copy: Vec<u8>)
    ensures
        copy@ == bytes@,
{
    let copy = bytes.clone();
    assert(copy@ =~= bytes@);
    copy
}

/// Copies a list of strings.
pub fn copy_strings(strings: &Vec<String>) -> (copy: Vec<String>)
    ensures
        copy.deep_view() == strings.deep_view(),
{
    let mut copy: Vec<String> = Vec::new();
    let mut i: usize = 0;
    while i < strings.len()
        invariant
            i <= strings.len(),
            copy.deep_view() == strings.deep_view().take(i as int),
        decreases strings.len() - i,
    {
        let ghost before = copy.deep_view();
        copy.push(strings[i].clone());
        assert(copy.deep_view() =~= before.push(strings[i as int]@));
        assert(strings.deep_view().take(i + 1) =~= before.push(strings[i as int]@));
        i = i + 1;
    }
    assert(strings.deep_view().take(i as int) == strings.deep_view());
    copy
}

impl Clone for Location {
    fn clone(&self) -> (copy: Self)
        ensures
            copy@ == self@,
    {
        Location { base: copy_bytes(&self.base), names: copy_strings(&self.names) }
    }
}

impl LocationView {
    /// The directory itself whose path is `base`.
    pub open spec fn top(base: Seq<u8>) -> LocationView {
        LocationView { base, names: seq![] }
    }

    /// The entry `name` of this directory.
    pub open spec fn join(self, name: Seq<char>) -> LocationView {
        LocationView { base: self.base, names: self.names.push(name) }
    }
}

impl Location {
    /// The directory itself whose path is `base`.
    pub fn top(base: Vec<u8>) -> (location: Location)
        ensures
            location@ == LocationView::top(base@),
    {
        let location = Location { base, names: Vec::new() };
        assert(location@ =~= LocationView::top(base@));
        location
    }

    /// The entry `name` of this directory.
    pub fn join(&self, name: String) -> (location: Location)
        ensures
            location@ == self@.join(name@),
    {
        let mut location = self.clone();
        location.names.push(name);
        assert(location@ =~= self@.join(name@));
        location
    }
}

/// The path of a directory's entry.
#[derive(Debug)]
pub struct EntryPath {
    pub parent: Location,
    pub file_name: String,
}

#[verifier::ext_equal]
pub struct EntryPathView {
    pub parent: LocationView,
    pub file_name: Seq<char>,
}

impl View for EntryPath {
    type V = EntryPathView;

    open spec fn view(&self) -> EntryPathView {
        EntryPathView { parent: self.parent@, file_name: self.file_name@ }
    }
}

impl Clone for EntryPath {
    fn clone(&self) -> (copy: Self)
        ensures
            copy@ == self@,
    {
        EntryPath { parent: self.parent.clone(), file_name: self.file_name.clone() }
    }
}

impl EntryPathView {
    /// The whole path.
    pub open spec fn location(self) -> LocationView {
        self.parent.join(self.file_name)
    }

    /// The path of the entry `file_name` beside this one.
    pub open spec fn with_file_name(self, file_name: Seq<char>) -> LocationView {
        self.parent.join(file_name)
    }
}

impl EntryPath {
    /// The whole path.
    pub fn location(&self) -> (location: Location)
        ensures
            location@ == self@.location(),
    {
        self.parent.join(self.file_name.clone())
    }

    /// The path of the entry `file_name` beside this one.
    pub fn with_file_name(&self, file_name: String) -> (location: Location)
        ensures
            location@ == self@.with_file_name(file_name@),
    {
        self.parent.join(file_name)
    }
}

/// The name of the directory that an instance is dumped to.
pub open spec fn dump_name(name: Seq<char>) -> Seq<char> {
    name + ".dump"@
}

/// The name of the directory that keeps an instance's old data.
pub open spec fn backup_name(name: Seq<char>) -> Seq<char> {
    name + ".backup"@
}

/// The name of the directory that an instance is dumped to.
pub fn dump_file_name(name: &String) -> (file_name: String)
    ensures
        file_name@ == dump_name(name@),
{
    name.clone().concat(".dump")
}

/// The name of the directory that keeps an instance's old data.
pub fn backup_file_name(name: &String) -> (file_name: String)
    ensures
        file_name@ == backup_name(name@),
{
    name.clone().concat(".backup")
}

} // verus!
