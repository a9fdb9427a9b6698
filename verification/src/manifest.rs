//! What the library reads of a `Cargo.toml` manifest: the package's name and
//! the workspace it names, and the member list of a workspace.

use vstd::prelude::*;

verus! {

/// The `[package]` table of a manifest, as far as the library reads it.
#[derive(Debug, Clone, PartialEq, Eq)]
pub struct PackageInfo {
    /// The package's name.
    pub name: String,
    /// The `workspace` key: the path of the workspace the package belongs to.
    pub workspace: Option<String>,
}

/// The `[workspace]` table of a manifest, as far as the library reads it.
#[derive(Debug, Clone, PartialEq, Eq)]
pub struct WorkspaceInfo {
    /// The member paths, relative to the workspace's directory.
    pub members: Vec<String>,
}

/// A manifest: a package, a workspace, both or neither.
#[derive(Debug, Clone, PartialEq, Eq)]
pub struct ManifestInfo {
    pub package: Option<PackageInfo>,
    pub workspace: Option<WorkspaceInfo>,
}

/// The mathematical value of a `[package]` table.
pub struct PackageModel {
    pub name: Seq<char>,
    pub workspace: Option<Seq<char>>,
}

/// The mathematical value of a manifest: its package, and the members of its
/// workspace where it has one.
pub struct ManifestModel {
    pub package: Option<PackageModel>,
    pub members: Option<Seq<Seq<char>>>,
}

pub open spec fn strings_view(v: Seq<String>) -> Seq<Seq<char>> {
    v.map_values(|s: String| s@)
}

impl View for PackageInfo {
    type V = PackageModel;

    open spec fn view(&self) -> PackageModel {
        PackageModel {
            name: self.name@,
            workspace: match self.workspace {
                Some(w) => Some(w@),
                None => None,
            },
        }
    }
}

impl View for ManifestInfo {
    type V = ManifestModel;

    open spec fn view(&self) -> ManifestModel {
        ManifestModel {
            package: match self.package {
                Some(p) => Some(p@),
                None => None,
            },
            members: match self.workspace {
                Some(w) => Some(strings_view(w.members@)),
                None => None,
            },
        }
    }
}

impl ManifestModel {
    /// The name of the manifest's package; meaningful where it has one.
    pub open spec fn package_name(self) -> Seq<char> {
        self.package.unwrap().name
    }

    /// The manifest with `name` added at the end of its workspace's members.
    pub open spec fn with_member(self, name: Seq<char>) -> ManifestModel {
        ManifestModel {
            package: self.package,
            members: match self.members {
                Some(m) => Some(m.push(name)),
                None => None,
            },
        }
    }
}

/// A copy of a list of strings.
pub(crate) fn copy_strings(v: &Vec<String>) -> (c: Vec<String>)
    ensures
        c@ == v@,
{
    let mut c: Vec<String> = Vec::new();
    let mut i: usize = 0;
    while i < v.len()
        invariant
            i <= v.len(),
            c@ == v@.subrange(0, i as int),
        decreases v.len() - i,
    {
        let s = v[i].clone();
        c.push(s);
        i = i + 1;
        assert(c@ =~= v@.subrange(0, i as int));
    }
    assert(c@ =~= v@);
    c
}

/// Whether `name` is one of `list`'s entries.
pub(crate) fn contains_string(list: &Vec<String>, name: &String) -> (found: bool)
    ensures
        found == strings_view(list@).contains(name@),
{
    let mut i: usize = 0;
    while i < list.len()
        invariant
            i <= list.len(),
            forall|j: int| 0 <= j < i ==> list@[j]@ != name@,
        decreases list.len() - i,
    {
        if list[i] == *name {
            assert(strings_view(list@)[i as int] == name@);
            return true;
        }
        i = i + 1;
    }
    assert forall|j: int| 0 <= j < strings_view(list@).len() implies strings_view(list@)[j] != name@ by {
        assert(list@[j]@ != name@);
    }
    false
}

impl PackageInfo {
    /// A copy of the `[package]` table.
    pub(crate) fn copy(&self) -> (c: PackageInfo)
        ensures
            c@ == self@,
    {
        let workspace = match &self.workspace {
            Some(w) => Some(w.clone()),
            None => None,
        };
        PackageInfo { name: self.name.clone(), workspace }
    }
}

impl ManifestInfo {
    /// A copy of the manifest.
    pub(crate) fn copy(&self) -> (c: ManifestInfo)
        ensures
            c@ == self@,
    {
        let package = match &self.package {
            Some(p) => Some(p.copy()),
            None => None,
        };
        let workspace = match &self.workspace {
            Some(w) => Some(WorkspaceInfo { members: copy_strings(&w.members) }),
            None => None,
        };
        ManifestInfo { package, workspace }
    }
}

} // verus!
