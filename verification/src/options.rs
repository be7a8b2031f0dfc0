//! What the user asks for.
use crate::version::{copy_version, Version, VersionQuery, VersionQueryView, VersionView};
use vstd::prelude::*;

verus! {

/// The options of an upgrade.
#[derive(Debug)]
pub struct Upgrade {
    /// The instance to upgrade; without it, all that are of the right kind.
    pub name: Option<String>,
    /// Upgrade all nightly instances.
    pub nightly: bool,
    /// Upgrade the named instance to the nightly.
    pub to_nightly: bool,
    /// Upgrade the named instance to this version.
    pub to_version: Option<Version>,
    /// Upgrade even where the installed version is not older.
    pub force: bool,
}

#[verifier::ext_equal]
pub struct UpgradeView {
    pub name: Option<Seq<char>>,
    pub nightly: bool,
    pub to_nightly: bool,
    pub to_version: Option<VersionView>,
    pub force: bool,
}

impl View for Upgrade {
    type V = UpgradeView;

    open spec fn view(&self) -> UpgradeView {
        UpgradeView {
            name: self.name.deep_view(),
            nightly: self.nightly,
            to_nightly: self.to_nightly,
            to_version: self.to_version.deep_view(),
            force: self.force,
        }
    }
}

impl Clone for Upgrade {
    fn clone(&self) -> (copy: Self)
        ensures
            copy@ == self@,
    {
        let name = match &self.name {
            Some(name) => Some(name.clone()),
            None => None,
        };
        Upgrade {
            name,
            nightly: self.nightly,
            to_nightly: self.to_nightly,
            to_version: copy_version(&self.to_version),
            force: self.force,
        }
    }
}

/// What is to be done.
#[derive(Debug)]
pub enum ToDo {
    /// Upgrade every instance that is not a nightly, within its major version.
    MinorUpgrade,
    /// Upgrade the named instance to the version asked for.
    InstanceUpgrade(String, VersionQuery),
    /// Upgrade every nightly instance.
    NightlyUpgrade,
}

#[verifier::ext_equal]
pub enum ToDoView {
    MinorUpgrade,
    InstanceUpgrade(Seq<char>, VersionQueryView),
    NightlyUpgrade,
}

impl View for ToDo {
    type V = ToDoView;

    open spec fn view(&self) -> ToDoView {
        match self {
            ToDo::MinorUpgrade => ToDoView::MinorUpgrade,
            ToDo::InstanceUpgrade(name, query) => ToDoView::InstanceUpgrade(name@, query@),
            ToDo::NightlyUpgrade => ToDoView::NightlyUpgrade,
        }
    }
}

impl UpgradeView {
    /// The version that a named instance is upgraded to. The nightly goes
    /// before a version that is named too.
    pub open spec fn wanted_version(self) -> VersionQueryView {
        if self.to_nightly {
            VersionQueryView::Nightly
        } else {
            VersionQueryView::Stable(self.to_version)
        }
    }

    /// What the options ask for. A name goes before the wish to upgrade all
    /// nightly instances.
    pub open spec fn todo(self) -> ToDoView {
        match self.name {
            Some(name) => ToDoView::InstanceUpgrade(name, self.wanted_version()),
            None => if self.nightly {
                ToDoView::NightlyUpgrade
            } else {
                ToDoView::MinorUpgrade
            },
        }
    }

    /// The options ask for one instance and for all nightly instances.
    pub open spec fn conflicting(self) -> bool {
        self.name is Some && self.nightly
    }
}

/// What the options ask for.
pub fn interpret_options(options: &Upgrade) -> (todo: ToDo)
    ensures
        todo@ == options@.todo(),
{
    if let Some(name) = &options.name {
        let query = if options.to_nightly {
            VersionQuery::Nightly
        } else if let Some(version) = &options.to_version {
            VersionQuery::Stable(Some(version.clone()))
        } else {
            VersionQuery::Stable(None)
        };
        ToDo::InstanceUpgrade(name.clone(), query)
    } else if options.nightly {
        ToDo::NightlyUpgrade
    } else {
        ToDo::MinorUpgrade
    }
}

} // verus!
