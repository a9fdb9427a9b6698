//! Loaded packages and workspaces, and the lookups on them.

use vstd::prelude::*;

use crate::manifest::{copy_strings, contains_string, strings_view, ManifestInfo, ManifestModel, WorkspaceInfo};
use crate::paths::{manifest_in, manifest_path_in, path_parent, parent_path, paths_equal, same_path};

verus! {

/// A package: the directory that holds its manifest, and the manifest.
#[derive(Debug)]
pub struct PackageManager {
    package_root: String,
    manifest: ManifestInfo,
}

/// A workspace: its directory, its root manifest, and its packages, each
/// listed once under its name.
#[derive(Debug)]
pub struct WorkspaceManager {
    workspace_root: String,
    root_manifest: ManifestInfo,
    packages: Vec<PackageManager>,
}

/// What a manifest path leads to: a workspace, or a single package.
#[derive(Debug)]
pub enum CargoTomlManager {
    Workspace(WorkspaceManager),
    Package(PackageManager),
}

/// The mathematical value of a package.
pub struct PackageView {
    pub root: Seq<char>,
    pub manifest: ManifestModel,
}

/// The mathematical value of a workspace.
pub struct WorkspaceView {
    pub root: Seq<char>,
    pub root_manifest: ManifestModel,
    pub packages: Seq<PackageView>,
}

/// The mathematical value of a manifest tree.
pub enum ManagerView {
    Workspace(WorkspaceView),
    Package(PackageView),
}

impl PackageView {
    /// A package's manifest has a `[package]` table.
    pub open spec fn wf(self) -> bool {
        self.manifest.package is Some
    }

    /// The package's name.
    pub open spec fn name(self) -> Seq<char> {
        self.manifest.package_name()
    }

    /// The path of the package's manifest.
    pub open spec fn manifest_path(self) -> Seq<char> {
        manifest_in(self.root)
    }
}

/// Whether one of `packages` is named `name`.
pub open spec fn has_package_named(packages: Seq<PackageView>, name: Seq<char>) -> bool {
    exists|i: int| 0 <= i < packages.len() && #[trigger] packages[i].name() == name
}

/// No two of `packages` share a name.
pub open spec fn names_unique(packages: Seq<PackageView>) -> bool {
    forall|i: int, j: int|
        0 <= i < packages.len() && 0 <= j < packages.len() && i != j ==> #[trigger] packages[i].name()
            != #[trigger] packages[j].name()
}

impl WorkspaceView {
    /// The root manifest is a workspace, every package has a name, and no
    /// name stands twice.
    pub open spec fn wf(self) -> bool {
        &&& self.root_manifest.members is Some
        &&& forall|i: int| 0 <= i < self.packages.len() ==> (#[trigger] self.packages[i]).wf()
        &&& names_unique(self.packages)
    }

    pub open spec fn has_package(self, name: Seq<char>) -> bool {
        has_package_named(self.packages, name)
    }

    /// The names of the workspace's packages, in the order they are kept.
    pub open spec fn package_names(self) -> Seq<Seq<char>> {
        self.packages.map_values(|p: PackageView| p.name())
    }
}

impl ManagerView {
    pub open spec fn wf(self) -> bool {
        match self {
            ManagerView::Workspace(w) => w.wf(),
            ManagerView::Package(p) => p.wf(),
        }
    }

    /// Whether the tree holds a package named `name`.
    pub open spec fn has_package(self, name: Seq<char>) -> bool {
        match self {
            ManagerView::Workspace(w) => w.has_package(name),
            ManagerView::Package(p) => p.name() == name,
        }
    }
}

impl View for PackageManager {
    type V = PackageView;

    closed spec fn view(&self) -> PackageView {
        PackageView { root: self.package_root@, manifest: self.manifest@ }
    }
}

impl View for WorkspaceManager {
    type V = WorkspaceView;

    closed spec fn view(&self) -> WorkspaceView {
        WorkspaceView {
            root: self.workspace_root@,
            root_manifest: self.root_manifest@,
            packages: self.packages@.map_values(|p: PackageManager| p@),
        }
    }
}

impl View for CargoTomlManager {
    type V = ManagerView;

    open spec fn view(&self) -> ManagerView {
        match self {
            CargoTomlManager::Workspace(w) => ManagerView::Workspace(w@),
            CargoTomlManager::Package(p) => ManagerView::Package(p@),
        }
    }
}

impl PackageManager {
    /// A package's manifest has a `[package]` table.
    #[verifier::type_invariant]
    spec fn inv(self) -> bool {
        self.manifest.package is Some
    }

    pub(crate) fn new(package_root: String, manifest: ManifestInfo) -> (p: PackageManager)
        requires
            manifest@.package is Some,
        ensures
            p@ == (PackageView { root: package_root@, manifest: manifest@ }),
    {
        PackageManager { package_root, manifest }
    }

    /// Whether the package's name is `name`.
    pub(crate) fn is_named(&self, name: &String) -> (b: bool)
        ensures
            self@.wf(),
            b == (self@.name() == name@),
    {
        proof {
            use_type_invariant(self);
        }
        let p = self.manifest.package.as_ref().unwrap();
        p.name == *name
    }

    /// The package's name.
    pub fn get_package_name(&self) -> (name: &str)
        ensures
            self@.wf(),
            name@ == self@.name(),
    {
        proof {
            use_type_invariant(self);
        }
        self.manifest.package.as_ref().unwrap().name.as_str()
    }

    /// The directory that holds the package's manifest.
    pub fn get_package_path(&self) -> (path: &str)
        ensures
            path@ == self@.root,
    {
        self.package_root.as_str()
    }

    /// The path of the package's manifest.
    pub fn get_manifest_path(&self) -> (path: String)
        ensures
            path@ == self@.manifest_path(),
    {
        manifest_path_in(self.package_root.as_str())
    }

    /// The package's manifest.
    pub fn get_manifest(&self) -> (manifest: &ManifestInfo)
        ensures
            manifest@ == self@.manifest,
    {
        &self.manifest
    }
}

/// The position of the package named `name` among `packages`; meaningful
/// where there is one.
pub open spec fn index_named(packages: Seq<PackageView>, name: Seq<char>) -> int {
    choose|i: int| 0 <= i < packages.len() && #[trigger] packages[i].name() == name
}

/// `packages` with `p` put under its name: in place of the package of that
/// name where there is one, else added at the end.
pub open spec fn insert_by_name(packages: Seq<PackageView>, p: PackageView) -> Seq<PackageView> {
    if has_package_named(packages, p.name()) {
        packages.update(index_named(packages, p.name()), p)
    } else {
        packages.push(p)
    }
}

/// A workspace whose root manifest is a package too lists that package: where
/// no package of its name is listed, and its name is not among the members,
/// the name is added to the members and the root is listed as a package, with
/// the manifest as it stands after that addition.
pub open spec fn adopt_root(w: WorkspaceView) -> WorkspaceView {
    match w.root_manifest.package {
        Some(pkg) => {
            if !w.has_package(pkg.name) && !w.root_manifest.members.unwrap().contains(pkg.name) {
                let m = w.root_manifest.with_member(pkg.name);
                WorkspaceView {
                    root: w.root,
                    root_manifest: m,
                    packages: w.packages.push(PackageView { root: w.root, manifest: m }),
                }
            } else {
                w
            }
        },
        None => w,
    }
}

/// The position of the first of `packages` whose directory is the same path
/// as `dir`; `packages.len()` where there is none.
pub open spec fn first_at(packages: Seq<PackageView>, dir: Seq<char>) -> int
    decreases packages.len(),
{
    if packages.len() == 0 {
        0
    } else if same_path(packages[0].root, dir) {
        0
    } else {
        1 + first_at(packages.drop_first(), dir)
    }
}

/// The directory in which a package at `path` is looked for: the parent of
/// `path` where it names a file, else `path` itself.
pub open spec fn search_dir(path: Seq<char>, path_is_file: bool) -> Seq<char> {
    if path_is_file {
        parent_path(path).unwrap()
    } else {
        path
    }
}

/// Looking up a file's path is looking up its directory, whatever the file's
/// name: where `path` names a file that has a parent directory, the package
/// found is the first whose directory is that parent, the same as for the
/// parent named as a directory; a directory's path is looked up as it stands.
pub proof fn law_file_lookup_is_directory_lookup(packages: Seq<PackageView>, path: Seq<char>)
    requires
        parent_path(path) is Some,
    ensures
        first_at(packages, search_dir(path, true)) == first_at(
            packages,
            search_dir(parent_path(path).unwrap(), false),
        ),
        first_at(packages, search_dir(path, true)) == first_at(packages, parent_path(path).unwrap()),
        first_at(packages, search_dir(path, false)) == first_at(packages, path),
{
}

proof fn lemma_first_at_bounds(packages: Seq<PackageView>, dir: Seq<char>)
    ensures
        0 <= first_at(packages, dir) <= packages.len(),
        first_at(packages, dir) < packages.len() ==> same_path(
            packages[first_at(packages, dir)].root,
            dir,
        ),
        forall|j: int| 0 <= j < first_at(packages, dir) ==> !same_path(#[trigger] packages[j].root, dir),
    decreases packages.len(),
{
    if packages.len() > 0 && !same_path(packages[0].root, dir) {
        let rest = packages.drop_first();
        lemma_first_at_bounds(rest, dir);
        assert forall|j: int| 0 <= j < first_at(packages, dir) implies !same_path(
            #[trigger] packages[j].root,
            dir,
        ) by {
            if j > 0 {
                assert(packages[j] == rest[j - 1]);
            }
        }
    }
}

/// Putting a package under its name works as a map from names to packages:
/// afterwards the name is listed and stands for that package, every other
/// name is listed as before and stands for the same package, and names stay
/// unique.
pub proof fn law_insert_by_name(packages: Seq<PackageView>, p: PackageView, name: Seq<char>)
    requires
        names_unique(packages),
    ensures
        names_unique(insert_by_name(packages, p)),
        has_package_named(insert_by_name(packages, p), name) == (name == p.name()
            || has_package_named(packages, name)),
        has_package_named(insert_by_name(packages, p), p.name()),
        insert_by_name(packages, p)[index_named(insert_by_name(packages, p), p.name())] == p,
        name != p.name() && has_package_named(packages, name) ==> insert_by_name(packages, p)[index_named(
            insert_by_name(packages, p),
            name,
        )] == packages[index_named(packages, name)],
{
    let q = insert_by_name(packages, p);
    if has_package_named(packages, p.name()) {
        let k = index_named(packages, p.name());
        assert(q[k].name() == p.name());
        assert forall|i: int, j: int|
            0 <= i < q.len() && 0 <= j < q.len() && i != j implies #[trigger] q[i].name()
            != #[trigger] q[j].name() by {
            if i == k {
                assert(packages[k].name() == p.name());
            } else if j == k {
                assert(packages[k].name() == p.name());
            }
        }
        if has_package_named(packages, name) && name != p.name() {
            let m = index_named(packages, name);
            assert(q[m].name() == name);
        }
        if has_package_named(q, name) && name != p.name() {
            let m = index_named(q, name);
            assert(packages[m].name() == name);
        }
    } else {
        let k = packages.len() as int;
        assert(q[k].name() == p.name());
        if has_package_named(packages, name) {
            let m = index_named(packages, name);
            assert(q[m].name() == name);
        }
        if has_package_named(q, name) && name != p.name() {
            let m = index_named(q, name);
            assert(packages[m].name() == name);
        }
    }
    let k = index_named(q, p.name());
    assert(q[k].name() == p.name());
    if name != p.name() && has_package_named(packages, name) {
        let m = index_named(q, name);
        let m0 = index_named(packages, name);
        assert(q[m].name() == name);
        assert(q[m0].name() == name);
    }
}

/// Each package after an insertion is the one put in, or the one that stood
/// at its place before.
pub(crate) proof fn lemma_insert_elements(packages: Seq<PackageView>, p: PackageView)
    ensures
        forall|i: int|
            0 <= i < insert_by_name(packages, p).len() ==> #[trigger] insert_by_name(packages, p)[i]
                == p || (i < packages.len() && insert_by_name(packages, p)[i] == packages[i]),
{
}

/// Listing the root's package keeps a workspace well formed.
pub(crate) proof fn lemma_adopt_wf(w: WorkspaceView)
    requires
        w.wf(),
    ensures
        adopt_root(w).wf(),
{
    let a = adopt_root(w);
    if a != w {
        let name = w.root_manifest.package_name();
        let k = w.packages.len() as int;
        assert(a.packages[k].name() == name);
        assert forall|i: int, j: int|
            0 <= i < a.packages.len() && 0 <= j < a.packages.len() && i != j implies #[trigger] a.packages[i].name()
            != #[trigger] a.packages[j].name() by {
            if i == k {
                assert(w.packages[j].name() != name);
            } else if j == k {
                assert(w.packages[i].name() != name);
            }
        }
        assert forall|i: int| 0 <= i < a.packages.len() implies (#[trigger] a.packages[i]).wf() by {
            if i < k {
                assert(a.packages[i] == w.packages[i]);
            }
        }
    }
}

/// A workspace whose root manifest is a package lists that package once
/// loading adds it: unless its name is among the member paths, a package of
/// its name is listed afterwards. No package listed before is dropped or
/// changed, and the workspace stays well formed.
pub proof fn law_root_package_listed(w: WorkspaceView)
    requires
        w.wf(),
        w.root_manifest.package is Some,
        !w.root_manifest.members.unwrap().contains(w.root_manifest.package_name()),
    ensures
        adopt_root(w).has_package(w.root_manifest.package_name()),
        adopt_root(w).wf(),
        adopt_root(w).packages.len() >= w.packages.len(),
        forall|i: int| 0 <= i < w.packages.len() ==> adopt_root(w).packages[i] == w.packages[i],
{
    lemma_adopt_wf(w);
    let name = w.root_manifest.package_name();
    if !w.has_package(name) {
        assert(adopt_root(w).packages[w.packages.len() as int].name() == name);
    }
}

/// How listing the root's package changes a workspace, over every
/// well-formed workspace: where the root manifest's package is neither listed
/// by name nor named among the member paths, its name is appended to the
/// members, the root's package and directory stay, and one package is added
/// at the end, in the workspace's directory, with exactly the root manifest as
/// it now stands (members included); in every other case nothing changes.
pub proof fn law_adopting_the_root_package(w: WorkspaceView)
    requires
        w.wf(),
    ensures
        ({
            let a = adopt_root(w);
            let members = w.root_manifest.members.unwrap();
            match w.root_manifest.package {
                Some(pkg) => if !w.has_package(pkg.name) && !members.contains(pkg.name) {
                    &&& a.root == w.root
                    &&& a.root_manifest.package == w.root_manifest.package
                    &&& a.root_manifest.members == Some(members.push(pkg.name))
                    &&& a.root_manifest.members.unwrap().len() == members.len() + 1
                    &&& a.root_manifest.members.unwrap().last() == pkg.name
                    &&& a.packages.len() == w.packages.len() + 1
                    &&& a.packages.drop_last() == w.packages
                    &&& a.packages.last().root == w.root
                    &&& a.packages.last().manifest == a.root_manifest
                    &&& a.packages.last().name() == pkg.name
                } else {
                    a == w
                },
                None => a == w,
            }
        }),
{
    let a = adopt_root(w);
    if let Some(pkg) = w.root_manifest.package {
        let members = w.root_manifest.members.unwrap();
        if !w.has_package(pkg.name) && !members.contains(pkg.name) {
            assert(a.packages.drop_last() =~= w.packages);
        }
    }
}

impl WorkspaceManager {
    /// The root manifest is a workspace, every package has a name, and no
    /// name stands twice.
    #[verifier::type_invariant]
    spec fn inv(self) -> bool {
        self@.wf()
    }

    /// A workspace with no packages yet.
    pub(crate) fn new(workspace_root: String, root_manifest: ManifestInfo) -> (w: WorkspaceManager)
        requires
            root_manifest@.members is Some,
        ensures
            w@ == (WorkspaceView {
                root: workspace_root@,
                root_manifest: root_manifest@,
                packages: Seq::empty(),
            }),
            w@.wf(),
    {
        let packages: Vec<PackageManager> = Vec::new();
        assert(packages@.map_values(|p: PackageManager| p@) =~= Seq::<PackageView>::empty());
        WorkspaceManager { workspace_root, root_manifest, packages }
    }

    /// The position of the package named `name`, where there is one.
    fn position_of(&self, name: &String) -> (r: Option<usize>)
        ensures
            self@.wf(),
            match r {
                Some(i) => i < self@.packages.len() && self@.packages[i as int].name() == name@,
                None => !self@.has_package(name@),
            },
    {
        proof {
            use_type_invariant(self);
        }
        let mut i: usize = 0;
        while i < self.packages.len()
            invariant
                self@.wf(),
                i <= self.packages@.len(),
                forall|j: int| 0 <= j < i ==> self@.packages[j].name() != name@,
            decreases self.packages.len() - i,
        {
            proof {
                assert(self@.packages[i as int] == self.packages@[i as int]@);
            }
            if self.packages[i].is_named(name) {
                return Some(i);
            }
            i = i + 1;
        }
        None
    }

    /// The workspace with `p` put under its name, in place of a package of
    /// the same name.
    pub(crate) fn insert_package(self, p: PackageManager) -> (w: WorkspaceManager)
        ensures
            w@ == (WorkspaceView { packages: insert_by_name(self@.packages, p@), ..self@ }),
    {
        proof {
            use_type_invariant(&self);
            use_type_invariant(&p);
        }
        let ghost old_view = self@;
        let ghost pv = p@;
        let name = p.manifest.package.as_ref().unwrap().name.clone();
        let position = self.position_of(&name);
        let WorkspaceManager { workspace_root, root_manifest, mut packages } = self;
        match position {
            Some(i) => {
                proof {
                    assert(has_package_named(old_view.packages, pv.name()));
                    let k = index_named(old_view.packages, pv.name());
                    assert(k == i as int);
                }
                packages.set(i, p);
                assert(packages@.map_values(|q: PackageManager| q@) =~= old_view.packages.update(
                    i as int,
                    pv,
                ));
            },
            None => {
                packages.push(p);
                assert(packages@.map_values(|q: PackageManager| q@) =~= old_view.packages.push(pv));
            },
        }
        proof {
            law_insert_by_name(old_view.packages, pv, pv.name());
            lemma_insert_elements(old_view.packages, pv);
        }
        WorkspaceManager { workspace_root, root_manifest, packages }
    }

    /// The workspace with the root manifest's package listed, as `adopt_root`
    /// says.
    pub(crate) fn adopt_root_package(self) -> (w: WorkspaceManager)
        ensures
            w@ == adopt_root(self@),
    {
        proof {
            use_type_invariant(&self);
            lemma_adopt_wf(self@);
        }
        let ghost old_view = self@;
        let name = match &self.root_manifest.package {
            Some(pkg) => pkg.name.clone(),
            None => {
                return self;
            },
        };
        if self.position_of(&name).is_some() {
            return self;
        }
        let listed = match &self.root_manifest.workspace {
            Some(ws) => contains_string(&ws.members, &name),
            None => true,
        };
        if listed {
            return self;
        }
        let package = self.root_manifest.package.as_ref().unwrap().copy();
        let mut members = copy_strings(&self.root_manifest.workspace.as_ref().unwrap().members);
        let ghost before = members@;
        let ghost added = name@;
        members.push(name);
        assert(strings_view(members@) =~= strings_view(before).push(added));
        let manifest = ManifestInfo {
            package: Some(package),
            workspace: Some(WorkspaceInfo { members }),
        };
        let entry = PackageManager::new(self.workspace_root.clone(), manifest.copy());
        let WorkspaceManager { workspace_root, root_manifest: _, mut packages } = self;
        packages.push(entry);
        proof {
            assert(manifest@.members =~= old_view.root_manifest.with_member(added).members);
            assert(manifest@ == old_view.root_manifest.with_member(added));
            assert(packages@.map_values(|q: PackageManager| q@) =~= old_view.packages.push(
                PackageView { root: old_view.root, manifest: manifest@ },
            ));
        }
        WorkspaceManager { workspace_root, root_manifest: manifest, packages }
    }

    /// The workspace's packages.
    pub fn get_packages(&self) -> (r: Vec<&PackageManager>)
        ensures
            r@.len() == self@.packages.len(),
            forall|i: int| 0 <= i < r@.len() ==> r@[i]@ == #[trigger] self@.packages[i],
    {
        let mut r: Vec<&PackageManager> = Vec::new();
        let mut i: usize = 0;
        while i < self.packages.len()
            invariant
                i <= self.packages@.len(),
                r@.len() == i,
                forall|j: int| 0 <= j < i ==> r@[j]@ == #[trigger] self@.packages[j],
            decreases self.packages.len() - i,
        {
            r.push(&self.packages[i]);
            i = i + 1;
        }
        r
    }

    /// The names of the workspace's packages, in the order of `get_packages`.
    pub fn get_package_names(&self) -> (r: Vec<&str>)
        ensures
            r@.len() == self@.packages.len(),
            forall|i: int| 0 <= i < r@.len() ==> r@[i]@ == #[trigger] self@.packages[i].name(),
    {
        proof {
            use_type_invariant(self);
        }
        let mut r: Vec<&str> = Vec::new();
        let mut i: usize = 0;
        while i < self.packages.len()
            invariant
                self@.wf(),
                i <= self.packages@.len(),
                r@.len() == i,
                forall|j: int| 0 <= j < i ==> r@[j]@ == #[trigger] self@.packages[j].name(),
            decreases self.packages.len() - i,
        {
            proof {
                assert(self@.packages[i as int] == self.packages@[i as int]@);
            }
            r.push(self.packages[i].get_package_name());
            i = i + 1;
        }
        r
    }

    /// The directories of the workspace's packages, in the order of `get_packages`.
    pub fn get_package_paths(&self) -> (r: Vec<&str>)
        ensures
            r@.len() == self@.packages.len(),
            forall|i: int| 0 <= i < r@.len() ==> r@[i]@ == #[trigger] self@.packages[i].root,
    {
        let mut r: Vec<&str> = Vec::new();
        let mut i: usize = 0;
        while i < self.packages.len()
            invariant
                i <= self.packages@.len(),
                r@.len() == i,
                forall|j: int| 0 <= j < i ==> r@[j]@ == #[trigger] self@.packages[j].root,
            decreases self.packages.len() - i,
        {
            r.push(self.packages[i].get_package_path());
            i = i + 1;
        }
        r
    }

    /// The workspace's root manifest.
    pub fn get_root_manifest(&self) -> (m: &ManifestInfo)
        ensures
            m@ == self@.root_manifest,
    {
        &self.root_manifest
    }

    /// The package named `package_name`, where there is one.
    pub fn get_package_manager(&self, package_name: &str) -> (r: Option<&PackageManager>)
        ensures
            self@.wf(),
            r is Some <==> self@.has_package(package_name@),
            r matches Some(p) ==> p@ == self@.packages[index_named(self@.packages, package_name@)]
                && p@.name() == package_name@,
    {
        let name = String::from_str(package_name);
        match self.position_of(&name) {
            Some(i) => {
                proof {
                    let k = index_named(self@.packages, package_name@);
                    assert(self@.packages[i as int].name() == package_name@);
                    assert(k == i as int);
                    assert(self@.packages[i as int] == self.packages@[i as int]@);
                }
                Some(&self.packages[i])
            },
            None => None,
        }
    }

    /// The first package whose directory is the same path as `package_path`,
    /// or, where `package_path` names a file, as the directory that holds it.
    pub fn get_package_manager_by_path(&self, package_path: &str, path_is_file: bool) -> (r: Option<
        &PackageManager,
    >)
        requires
            path_is_file ==> parent_path(package_path@) is Some,
        ensures
            ({
                let k = first_at(self@.packages, search_dir(package_path@, path_is_file));
                match r {
                    Some(p) => k < self@.packages.len() && p@ == self@.packages[k],
                    None => k == self@.packages.len(),
                }
            }),
            ({
                let dir = if path_is_file {
                    parent_path(package_path@).unwrap()
                } else {
                    package_path@
                };
                match r {
                    Some(p) => same_path(p@.root, dir) && exists|i: int|
                        0 <= i < self@.packages.len() && self@.packages[i] == p@ && forall|j: int|
                            0 <= j < i ==> !same_path(#[trigger] self@.packages[j].root, dir),
                    None => forall|j: int|
                        0 <= j < self@.packages.len() ==> !same_path(#[trigger] self@.packages[j].root, dir),
                }
            }),
    {
        proof {
            let dir = if path_is_file {
                parent_path(package_path@).unwrap()
            } else {
                package_path@
            };
            lemma_first_at_bounds(self@.packages, dir);
            if path_is_file {
                law_file_lookup_is_directory_lookup(self@.packages, package_path@);
            }
        }
        let dir = if path_is_file {
            match path_parent(package_path) {
                Some(d) => d,
                None => String::from_str(package_path),
            }
        } else {
            String::from_str(package_path)
        };
        let ghost d = search_dir(package_path@, path_is_file);
        proof {
            lemma_first_at_bounds(self@.packages, d);
        }
        let mut i: usize = 0;
        while i < self.packages.len()
            invariant
                d == search_dir(package_path@, path_is_file),
                dir@ == d,
                i <= self.packages@.len(),
                forall|j: int| 0 <= j < i ==> !same_path(#[trigger] self@.packages[j].root, d),
                0 <= first_at(self@.packages, d) <= self@.packages.len(),
                first_at(self@.packages, d) < self@.packages.len() ==> same_path(
                    self@.packages[first_at(self@.packages, d)].root,
                    d,
                ),
                forall|j: int|
                    0 <= j < first_at(self@.packages, d) ==> !same_path(
                        #[trigger] self@.packages[j].root,
                        d,
                    ),
            decreases self.packages.len() - i,
        {
            proof {
                assert(self@.packages[i as int] == self.packages@[i as int]@);
            }
            if paths_equal(self.packages[i].get_package_path(), dir.as_str()) {
                proof {
                    let k = first_at(self@.packages, d);
                    if k < i {
                        assert(!same_path(self@.packages[k].root, d));
                    }
                    if k > i {
                        assert(!same_path(self@.packages[i as int].root, d));
                    }
                    assert(k == i as int);
                    assert(self.packages@[i as int]@ == self@.packages[k]);
                }
                return Some(&self.packages[i]);
            }
            i = i + 1;
        }
        None
    }

    /// `get_package_manager_by_path`, where it can be asked: `None` where
    /// `package_path` names a file but has no parent directory to look in.
    pub fn lookup_package_by_path(&self, package_path: &str, path_is_file: bool) -> (r: Option<
        Option<&PackageManager>,
    >)
        ensures
            r is None <==> (path_is_file && parent_path(package_path@) is None),
            r matches Some(found) ==> ({
                let k = first_at(self@.packages, search_dir(package_path@, path_is_file));
                match found {
                    Some(p) => k < self@.packages.len() && p@ == self@.packages[k],
                    None => k == self@.packages.len(),
                }
            }),
    {
        if path_is_file && path_parent(package_path).is_none() {
            return None;
        }
        Some(self.get_package_manager_by_path(package_path, path_is_file))
    }

    /// The workspace's directory.
    pub fn get_workspace_root(&self) -> (root: &str)
        ensures
            root@ == self@.root,
    {
        self.workspace_root.as_str()
    }
}

impl CargoTomlManager {
    /// Whether the tree holds a package named `package_name`.
    pub fn package_exists(&self, package_name: &str) -> (b: bool)
        ensures
            self@.wf(),
            b == self@.has_package(package_name@),
    {
        match self {
            CargoTomlManager::Workspace(manager) => manager.get_package_manager(package_name).is_some(),
            CargoTomlManager::Package(manager) => {
                let name = String::from_str(package_name);
                manager.is_named(&name)
            },
        }
    }

    /// The package named `package_name` in the tree, where there is one.
    pub fn get_package_manager(&self, package_name: &str) -> (r: Option<&PackageManager>)
        ensures
            self@.wf(),
            r is Some <==> self@.has_package(package_name@),
            r matches Some(p) ==> p@.name() == package_name@,
            r matches Some(p) ==> match self@ {
                ManagerView::Workspace(w) => p@ == w.packages[index_named(w.packages, package_name@)],
                ManagerView::Package(q) => p@ == q,
            },
    {
        match self {
            CargoTomlManager::Workspace(manager) => manager.get_package_manager(package_name),
            CargoTomlManager::Package(manager) => {
                let name = String::from_str(package_name);
                if manager.is_named(&name) {
                    Some(manager)
                } else {
                    None
                }
            },
        }
    }
}

} // verus!
