//! How the instances are found.
use crate::instance::{Instance, InstanceView, Metadata, MetadataView};
use crate::location::{EntryPath, EntryPathView, Location, LocationView};
use vstd::prelude::*;

verus! {

/// An entry of the directory that holds the instances.
#[derive(Debug)]
pub struct DirEntry {
    /// Whether it is a directory; nothing where that cannot be determined.
    pub is_dir: Option<bool>,
    /// Its name, where that is valid text.
    pub name: Option<String>,
    /// Whether its name is one that an instance may have.
    pub valid_name: bool,
}

#[verifier::ext_equal]
pub struct DirEntryView {
    pub is_dir: Option<bool>,
    pub name: Option<Seq<char>>,
    pub valid_name: bool,
}

impl View for DirEntry {
    type V = DirEntryView;

    open spec fn view(&self) -> DirEntryView {
        DirEntryView {
            is_dir: self.is_dir,
            name: self.name.deep_view(),
            valid_name: self.valid_name,
        }
    }
}

/// What an entry turns out to be.
#[derive(Debug)]
pub enum Item {
    /// What it is cannot be determined.
    Untyped,
    /// It is no instance.
    Skipped,
    /// It is the directory of the instance with this name.
    Candidate(String),
}

#[verifier::ext_equal]
pub enum ItemView {
    Untyped,
    Skipped,
    Candidate(Seq<char>),
}

impl View for Item {
    type V = ItemView;

    open spec fn view(&self) -> ItemView {
        match self {
            Item::Untyped => ItemView::Untyped,
            Item::Skipped => ItemView::Skipped,
            Item::Candidate(name) => ItemView::Candidate(name@),
        }
    }
}

impl DirEntryView {
    /// What the entry turns out to be: only a directory with a valid name can
    /// hold an instance.
    pub open spec fn item(self) -> ItemView {
        if self.is_dir is None {
            ItemView::Untyped
        } else if self.is_dir->0 && self.name is Some && self.valid_name {
            ItemView::Candidate(self.name->0)
        } else {
            ItemView::Skipped
        }
    }
}

/// A directory, and the instances found in it so far.
#[derive(Debug)]
pub struct InstanceIterator {
    pub path: Location,
    pub found: Vec<Instance>,
}

#[verifier::ext_equal]
pub struct InstanceIteratorView {
    pub path: LocationView,
    pub found: Seq<InstanceView>,
}

impl View for InstanceIterator {
    type V = InstanceIteratorView;

    open spec fn view(&self) -> InstanceIteratorView {
        InstanceIteratorView { path: self.path@, found: self.found.deep_view() }
    }
}

/// The instance `name` that stands in the directory `path`.
pub open spec fn instance_in(
    path: LocationView,
    name: Seq<char>,
    meta: MetadataView,
) -> InstanceView {
    InstanceView {
        name,
        meta,
        system: false,
        data_dir: EntryPathView { parent: path, file_name: name },
        source: None,
        version: None,
    }
}

impl InstanceIteratorView {
    /// Nothing found yet.
    pub open spec fn at(path: LocationView) -> InstanceIteratorView {
        InstanceIteratorView { path, found: seq![] }
    }

    /// One more instance found.
    pub open spec fn with(self, name: Seq<char>, meta: MetadataView) -> InstanceIteratorView {
        InstanceIteratorView {
            path: self.path,
            found: self.found.push(instance_in(self.path, name, meta)),
        }
    }

    /// Where the metadata of the instance `name` stands.
    pub open spec fn metadata_path(self, name: Seq<char>) -> LocationView {
        self.path.join(name).join("metadata.json"@)
    }
}

impl InstanceIterator {
    /// Starts to look for instances in a directory.
    pub fn at(path: Location) -> (listing: InstanceIterator)
        ensures
            listing@ == InstanceIteratorView::at(path@),
    {
        let listing = InstanceIterator { path, found: Vec::new() };
        assert(listing@ =~= InstanceIteratorView::at(path@));
        listing
    }

    /// What an entry of the directory turns out to be.
    pub fn read_item(&self, entry: DirEntry) -> (item: Item)
        ensures
            item@ == entry@.item(),
    {
        match entry.is_dir {
            None => Item::Untyped,
            Some(false) => Item::Skipped,
            Some(true) => match entry.name {
                Some(name) => if entry.valid_name {
                    Item::Candidate(name)
                } else {
                    Item::Skipped
                },
                None => Item::Skipped,
            },
        }
    }

    /// Adds the instance `name`, whose metadata was read.
    pub fn found(&mut self, name: String, meta: Metadata)
        ensures
            final(self)@ == old(self)@.with(name@, meta@),
    {
        let data_dir = EntryPath { parent: self.path.clone(), file_name: name.clone() };
        let ghost before = self.found.deep_view();
        let instance = Instance {
            name,
            meta,
            system: false,
            data_dir,
            source: None,
            version: None,
        };
        self.found.push(instance);
        assert(self.found.deep_view() =~= before.push(instance@));
    }

    /// Where the metadata of the instance `name` stands.
    pub fn metadata_path(&self, name: &String) -> (path: Location)
        ensures
            path@ == self@.metadata_path(name@),
    {
        self.path.join(name.clone()).join("metadata.json".to_string())
    }
}

} // verus!
