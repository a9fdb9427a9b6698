//! Loading a manifest tree: from a manifest path, or from a directory inside
//! a package, to the package or to the workspace it belongs to.
//!
//! Loading alternates reads of the file system with decisions, so it is a
//! state machine: each `Outcome::Pending` names a request, the caller carries
//! it out and hands the answer to `Loader::resume`, until the machine is
//! `Done` or gives up with a `Fault` where no loading can go on.

use vstd::prelude::*;

use crate::manager::{
    adopt_root, has_package_named, index_named, insert_by_name, law_insert_by_name, names_unique, lemma_adopt_wf, lemma_insert_elements, CargoTomlManager, ManagerView, PackageManager, PackageView,
    WorkspaceManager, WorkspaceView,
};
use crate::manifest::{copy_strings, strings_view, ManifestInfo, ManifestModel};
use crate::paths::{
    join_path, joined_path, manifest_in, manifest_path_in, parent_path, path_parent,
};
use crate::search::{ancestor, search_step, ManifestSearch, SearchStep, SearchStepView, SearchView};

verus! {

/// Why a manifest tree could not be loaded.
#[derive(Debug, Clone, Copy, PartialEq, Eq, Structural)]
pub enum LoadError {
    /// The manifest named by the path could not be read.
    UnreadableManifest,
    /// The manifest has neither a `[package]` nor a `[workspace]` table.
    NotWorkspaceOrPackage,
}

/// A state that loading cannot go on from, where the caller is to stop.
#[derive(Debug, Clone, Copy, PartialEq, Eq, Structural)]
pub enum Fault {
    /// A manifest path has no parent directory.
    ManifestWithoutParent,
    /// The manifest taken for a package's workspace has no `[workspace]` table.
    NotAWorkspace,
    /// The manifest of a workspace member could not be read.
    InvalidMemberManifest,
    /// The manifest of a workspace member has no `[package]` table.
    MemberWithoutPackage,
}

impl LoadError {
    /// The message that describes the error.
    pub fn message(self) -> (m: &'static str)
        ensures
            m@ == self.text(),
    {
        match self {
            LoadError::UnreadableManifest => "unable to read Cargo.toml",
            LoadError::NotWorkspaceOrPackage => "Cargo.toml is not a valid workspace or package manifest",
        }
    }

    pub open spec fn text(self) -> Seq<char> {
        match self {
            LoadError::UnreadableManifest => "unable to read Cargo.toml"@,
            LoadError::NotWorkspaceOrPackage => "Cargo.toml is not a valid workspace or package manifest"@,
        }
    }
}

impl Fault {
    /// The message that describes the fault.
    pub fn message(self) -> (m: &'static str)
        ensures
            m@ == self.text(),
    {
        match self {
            Fault::ManifestWithoutParent => "Cargo.toml should always have a parent",
            Fault::NotAWorkspace => "assertion failed: manifest.workspace.is_some()",
            Fault::InvalidMemberManifest => "member manifest should be valid",
            Fault::MemberWithoutPackage => "package is known to be present",
        }
    }

    pub open spec fn text(self) -> Seq<char> {
        match self {
            Fault::ManifestWithoutParent => "Cargo.toml should always have a parent"@,
            Fault::NotAWorkspace => "assertion failed: manifest.workspace.is_some()"@,
            Fault::InvalidMemberManifest => "member manifest should be valid"@,
            Fault::MemberWithoutPackage => "package is known to be present"@,
        }
    }
}

/// What the loader asks of the file system.
#[derive(Debug)]
pub enum Request {
    /// Whether a file exists at this path.
    FileExists(String),
    /// The manifest at this path, or `None` where it cannot be read.
    ReadManifest(String),
}

/// The answer to a request.
#[derive(Debug)]
pub enum Event {
    FileExists(bool),
    Manifest(Option<ManifestInfo>),
}

pub enum RequestView {
    FileExists(Seq<char>),
    ReadManifest(Seq<char>),
}

pub enum EventView {
    FileExists(bool),
    Manifest(Option<ManifestModel>),
}

impl View for Request {
    type V = RequestView;

    open spec fn view(&self) -> RequestView {
        match self {
            Request::FileExists(p) => RequestView::FileExists(p@),
            Request::ReadManifest(p) => RequestView::ReadManifest(p@),
        }
    }
}

impl View for Event {
    type V = EventView;

    open spec fn view(&self) -> EventView {
        match self {
            Event::FileExists(b) => EventView::FileExists(*b),
            Event::Manifest(Some(m)) => EventView::Manifest(Some(m@)),
            Event::Manifest(None) => EventView::Manifest(None),
        }
    }
}

enum Phase {
    FindRoot { search: ManifestSearch },
    ReadRoot { path: String },
    FindWorkspace { package_path: String, package: ManifestInfo, search: ManifestSearch },
    ReadWorkspace { package_path: String, package: ManifestInfo, workspace_path: String },
    ReadMembers {
        workspace: WorkspaceManager,
        members: Vec<String>,
        next: usize,
        adopt_root: bool,
    },
}

/// A loading under way.
pub struct Loader {
    phase: Phase,
}

/// The mathematical value of a loading under way.
pub enum LoaderView {
    /// Looking for the first manifest at or above a directory.
    FindRoot { search: SearchView },
    /// Reading the manifest that loading starts from.
    ReadRoot { path: Seq<char> },
    /// A package without a workspace key: looking for its workspace above it.
    FindWorkspace { package_path: Seq<char>, package: ManifestModel, search: SearchView },
    /// A package: reading the manifest of its workspace.
    ReadWorkspace { package_path: Seq<char>, package: ManifestModel, workspace_path: Seq<char> },
    /// A workspace: reading the manifest of member `next`.
    ReadMembers {
        workspace: WorkspaceView,
        members: Seq<Seq<char>>,
        next: nat,
        adopt_root: bool,
    },
}

/// What the loader does next.
pub enum Outcome {
    /// It waits for the answer to the request.
    Pending(Loader, Request),
    /// It has finished: `Ok(None)` where no manifest was found.
    Done(Result<Option<CargoTomlManager>, LoadError>),
    /// It cannot go on.
    Abort(Fault),
}

pub enum OutcomeView {
    Pending(LoaderView, RequestView),
    Done(Result<Option<ManagerView>, LoadError>),
    Abort(Fault),
}

spec fn phase_view(p: Phase) -> LoaderView {
    match p {
        Phase::FindRoot { search } => LoaderView::FindRoot { search: search@ },
        Phase::ReadRoot { path } => LoaderView::ReadRoot { path: path@ },
        Phase::FindWorkspace { package_path, package, search } => LoaderView::FindWorkspace {
            package_path: package_path@,
            package: package@,
            search: search@,
        },
        Phase::ReadWorkspace { package_path, package, workspace_path } => LoaderView::ReadWorkspace {
            package_path: package_path@,
            package: package@,
            workspace_path: workspace_path@,
        },
        Phase::ReadMembers { workspace, members, next, adopt_root } => LoaderView::ReadMembers {
            workspace: workspace@,
            members: strings_view(members@),
            next: next as nat,
            adopt_root,
        },
    }
}

impl View for Loader {
    type V = LoaderView;

    closed spec fn view(&self) -> LoaderView {
        phase_view(self.phase)
    }
}

impl View for Outcome {
    type V = OutcomeView;

    open spec fn view(&self) -> OutcomeView {
        match self {
            Outcome::Pending(l, r) => OutcomeView::Pending(l@, r@),
            Outcome::Done(Ok(Some(m))) => OutcomeView::Done(Ok(Some(m@))),
            Outcome::Done(Ok(None)) => OutcomeView::Done(Ok(None)),
            Outcome::Done(Err(e)) => OutcomeView::Done(Err(*e)),
            Outcome::Abort(f) => OutcomeView::Abort(*f),
        }
    }
}

/// Every package of the workspace lives in the workspace's directory or in
/// one of its member directories.
pub open spec fn package_roots_listed(w: WorkspaceView, members: Seq<Seq<char>>) -> bool {
    forall|i: int|
        0 <= i < w.packages.len() ==> (#[trigger] w.packages[i]).root == w.root || exists|j: int|
            0 <= j < members.len() && w.packages[i].root == joined_path(w.root, #[trigger] members[j])
}

/// A manifest tree as loading leaves it: well formed, and a workspace's
/// packages all live in its directory or in its members' directories.
pub open spec fn loaded(m: ManagerView) -> bool {
    &&& m.wf()
    &&& m matches ManagerView::Workspace(w) ==> package_roots_listed(
        w,
        w.root_manifest.members.unwrap(),
    )
}

impl LoaderView {
    pub open spec fn wf(self) -> bool {
        match self {
            LoaderView::FindRoot { search } => search.wf(),
            LoaderView::ReadRoot { .. } => true,
            LoaderView::FindWorkspace { package, search, .. } => search.wf() && package.package is Some,
            LoaderView::ReadWorkspace { package, .. } => package.package is Some,
            LoaderView::ReadMembers { workspace, members, next, .. } => {
                &&& workspace.wf()
                &&& next < members.len()
                &&& workspace.root_manifest.members == Some(members)
                &&& package_roots_listed(workspace, members)
            },
        }
    }

    /// What the loader asks in this state.
    pub open spec fn request(self) -> RequestView {
        match self {
            LoaderView::FindRoot { search } => RequestView::FileExists(search.candidate()),
            LoaderView::ReadRoot { path } => RequestView::ReadManifest(path),
            LoaderView::FindWorkspace { search, .. } => RequestView::FileExists(search.candidate()),
            LoaderView::ReadWorkspace { workspace_path, .. } => RequestView::ReadManifest(
                workspace_path,
            ),
            LoaderView::ReadMembers { workspace, members, next, .. } => RequestView::ReadManifest(
                manifest_in(joined_path(workspace.root, members[next as int])),
            ),
        }
    }

    /// Whether `e` answers the request of this state.
    pub open spec fn answers(self, e: EventView) -> bool {
        match self.request() {
            RequestView::FileExists(_) => e is FileExists,
            RequestView::ReadManifest(_) => e is Manifest,
        }
    }
}

/// Waiting in state `l`, with its request.
pub open spec fn pending(l: LoaderView) -> OutcomeView {
    OutcomeView::Pending(l, l.request())
}

/// A package whose manifest is at `path`; it lives in the manifest's directory.
pub open spec fn package_done(path: Seq<char>, manifest: ManifestModel) -> OutcomeView {
    match parent_path(path) {
        Some(dir) => OutcomeView::Done(
            Ok(Some(ManagerView::Package(PackageView { root: dir, manifest }))),
        ),
        None => OutcomeView::Abort(Fault::ManifestWithoutParent),
    }
}

/// Reading members from `next` on; when all are read, the workspace is
/// done, with the root's package listed where `adopt` asks for it.
pub open spec fn members_from(
    w: WorkspaceView,
    members: Seq<Seq<char>>,
    next: nat,
    adopt: bool,
) -> OutcomeView {
    if next < members.len() {
        pending(LoaderView::ReadMembers { workspace: w, members, next, adopt_root: adopt })
    } else {
        OutcomeView::Done(
            Ok(Some(ManagerView::Workspace(if adopt { adopt_root(w) } else { w }))),
        )
    }
}

/// A workspace whose manifest `manifest` is at `path`: no package yet, its
/// members to be read in order.
pub open spec fn workspace_start(path: Seq<char>, manifest: ManifestModel, adopt: bool) -> OutcomeView {
    match parent_path(path) {
        Some(root) => members_from(
            WorkspaceView { root, root_manifest: manifest, packages: Seq::empty() },
            manifest.members.unwrap(),
            0,
            adopt,
        ),
        None => OutcomeView::Abort(Fault::ManifestWithoutParent),
    }
}

/// What the manifest at `path` leads to: a workspace, whose root package is
/// listed too; a package with a workspace key, whose workspace is read from
/// there; a package without one, whose workspace is looked for from the
/// directory above the package's; neither, an error.
pub open spec fn classify(path: Seq<char>, m: ManifestModel) -> OutcomeView {
    if m.members is Some {
        workspace_start(path, m, true)
    } else if m.package is Some {
        match m.package.unwrap().workspace {
            Some(ws) => pending(
                LoaderView::ReadWorkspace {
                    package_path: path,
                    package: m,
                    workspace_path: manifest_in(ws),
                },
            ),
            None => match parent_path(path) {
                None => OutcomeView::Abort(Fault::ManifestWithoutParent),
                Some(dir) => match parent_path(dir) {
                    None => package_done(path, m),
                    Some(above) => pending(
                        LoaderView::FindWorkspace {
                            package_path: path,
                            package: m,
                            search: SearchView { start: above, depth: 0, current: above },
                        },
                    ),
                },
            },
        }
    } else {
        OutcomeView::Done(Err(LoadError::NotWorkspaceOrPackage))
    }
}

/// One step of loading: the state `l` receives the answer `e`.
pub open spec fn load_step(l: LoaderView, e: EventView) -> OutcomeView {
    match l {
        LoaderView::FindRoot { search } => match search_step(search, e->FileExists_0) {
            SearchStepView::Found(p) => pending(LoaderView::ReadRoot { path: p }),
            SearchStepView::Continue(t) => pending(LoaderView::FindRoot { search: t }),
            SearchStepView::NotFound => OutcomeView::Done(Ok(None)),
        },
        LoaderView::ReadRoot { path } => match e->Manifest_0 {
            None => OutcomeView::Done(Err(LoadError::UnreadableManifest)),
            Some(m) => classify(path, m),
        },
        LoaderView::FindWorkspace { package_path, package, search } => match search_step(
            search,
            e->FileExists_0,
        ) {
            SearchStepView::Found(p) => pending(
                LoaderView::ReadWorkspace { package_path, package, workspace_path: p },
            ),
            SearchStepView::Continue(t) => pending(
                LoaderView::FindWorkspace { package_path, package, search: t },
            ),
            SearchStepView::NotFound => package_done(package_path, package),
        },
        LoaderView::ReadWorkspace { package_path, package, workspace_path } => match e->Manifest_0 {
            None => package_done(package_path, package),
            Some(w) => if w.members is Some {
                workspace_start(workspace_path, w, false)
            } else {
                OutcomeView::Abort(Fault::NotAWorkspace)
            },
        },
        LoaderView::ReadMembers { workspace, members, next, adopt_root } => match e->Manifest_0 {
            None => OutcomeView::Abort(Fault::InvalidMemberManifest),
            Some(m) => if m.package is Some {
                members_from(
                    WorkspaceView {
                        packages: insert_by_name(
                            workspace.packages,
                            PackageView {
                                root: joined_path(workspace.root, members[next as int]),
                                manifest: m,
                            },
                        ),
                        ..workspace
                    },
                    members,
                    next + 1,
                    adopt_root,
                )
            } else {
                OutcomeView::Abort(Fault::MemberWithoutPackage)
            },
        },
    }
}

/// The outcome is as loading leaves it: a pending state is well formed, and
/// a loaded tree is `loaded`.
pub open spec fn outcome_ok(o: OutcomeView) -> bool {
    match o {
        OutcomeView::Pending(l, _) => l.wf(),
        OutcomeView::Done(Ok(Some(m))) => loaded(m),
        _ => true,
    }
}

/// Loading from a directory is loading from the manifest that the search
/// from that directory finds: once the search finds `p`, the loader stands
/// where loading from the manifest path `p` starts; while it finds nothing it
/// searches on; where no ancestor holds a manifest, loading ends with no tree.
pub proof fn law_from_path_searches_then_loads(s: SearchView, exists: bool)
    ensures
        search_step(s, exists) matches SearchStepView::Found(p) ==> load_step(
            LoaderView::FindRoot { search: s },
            EventView::FileExists(exists),
        ) == pending(LoaderView::ReadRoot { path: p }),
        search_step(s, exists) matches SearchStepView::Continue(t) ==> load_step(
            LoaderView::FindRoot { search: s },
            EventView::FileExists(exists),
        ) == pending(LoaderView::FindRoot { search: t }),
        search_step(s, exists) is NotFound ==> load_step(
            LoaderView::FindRoot { search: s },
            EventView::FileExists(exists),
        ) == OutcomeView::Done(Ok(None)),
{
}

/// Loading from a manifest path never ends without a tree: only the search
/// for the first manifest above a directory can find none, and once past it,
/// loading never returns to it. So a loading that starts from a manifest path
/// ends with a package, a workspace, an error or a fault.
pub proof fn law_manifest_path_yields_a_tree(l: LoaderView, e: EventView)
    requires
        !(l is FindRoot),
    ensures
        !(load_step(l, e) matches OutcomeView::Done(Ok(None))),
        load_step(l, e) matches OutcomeView::Pending(n, _) ==> !(n is FindRoot),
{
}

proof fn lemma_insert_keeps_roots(w: WorkspaceView, members: Seq<Seq<char>>, next: nat, p: PackageView)
    requires
        package_roots_listed(w, members),
        next < members.len(),
        p.root == joined_path(w.root, members[next as int]),
    ensures
        package_roots_listed(
            WorkspaceView { packages: insert_by_name(w.packages, p), ..w },
            members,
        ),
{
    let v = WorkspaceView { packages: insert_by_name(w.packages, p), ..w };
    assert forall|i: int| 0 <= i < v.packages.len() implies (#[trigger] v.packages[i]).root == v.root
        || exists|j: int|
        0 <= j < members.len() && v.packages[i].root == joined_path(v.root, #[trigger] members[j]) by {
        if v.packages[i] == p {
            assert(members[next as int] == members[next as int]);
        } else {
            assert(v.packages[i] == w.packages[i]);
        }
    }
}

proof fn lemma_adopt_keeps_roots(w: WorkspaceView, members: Seq<Seq<char>>)
    requires
        w.wf(),
        w.root_manifest.members == Some(members),
        package_roots_listed(w, members),
    ensures
        package_roots_listed(adopt_root(w), adopt_root(w).root_manifest.members.unwrap()),
{
    let a = adopt_root(w);
    let ms = a.root_manifest.members.unwrap();
    if a != w {
        let name = w.root_manifest.package.unwrap().name;
        assert(ms == members.push(name));
        assert forall|i: int| 0 <= i < a.packages.len() implies (#[trigger] a.packages[i]).root == a.root
            || exists|j: int|
            0 <= j < ms.len() && a.packages[i].root == joined_path(a.root, #[trigger] ms[j]) by {
            if i < w.packages.len() {
                assert(a.packages[i] == w.packages[i]);
                if w.packages[i].root != w.root {
                    let j = choose|j: int|
                        0 <= j < members.len() && w.packages[i].root == joined_path(
                            w.root,
                            #[trigger] members[j],
                        );
                    assert(ms[j] == members[j]);
                }
            }
        }
    }
}

/// Waiting in `phase`, with the request it makes.
fn pend(phase: Phase) -> (o: Outcome)
    requires
        phase_view(phase).wf(),
    ensures
        o@ == pending(phase_view(phase)),
        outcome_ok(o@),
{
    let loader = Loader { phase };
    let request = loader.request();
    Outcome::Pending(loader, request)
}

/// The package whose manifest is at `path`.
fn finish_package(path: String, manifest: ManifestInfo) -> (o: Outcome)
    requires
        manifest@.package is Some,
    ensures
        o@ == package_done(path@, manifest@),
        outcome_ok(o@),
{
    match path_parent(path.as_str()) {
        Some(dir) => Outcome::Done(
            Ok(Some(CargoTomlManager::Package(PackageManager::new(dir, manifest)))),
        ),
        None => Outcome::Abort(Fault::ManifestWithoutParent),
    }
}

/// Reading members from `next` on, or the finished workspace.
fn read_members_from(workspace: WorkspaceManager, members: Vec<String>, next: usize, adopt: bool) -> (o:
    Outcome)
    requires
        workspace@.wf(),
        next <= members@.len(),
        workspace@.root_manifest.members == Some(strings_view(members@)),
        package_roots_listed(workspace@, strings_view(members@)),
    ensures
        o@ == members_from(workspace@, strings_view(members@), next as nat, adopt),
        outcome_ok(o@),
{
    if next < members.len() {
        pend(Phase::ReadMembers { workspace, members, next, adopt_root: adopt })
    } else {
        let mut workspace = workspace;
        if adopt {
            proof {
                lemma_adopt_keeps_roots(workspace@, strings_view(members@));
            }
            workspace = workspace.adopt_root_package();
        }
        Outcome::Done(Ok(Some(CargoTomlManager::Workspace(workspace))))
    }
}

/// The workspace whose manifest is at `path`, its members still to be read.
fn start_workspace(path: String, manifest: ManifestInfo, adopt: bool) -> (o: Outcome)
    requires
        manifest@.members is Some,
    ensures
        o@ == workspace_start(path@, manifest@, adopt),
        outcome_ok(o@),
{
    match path_parent(path.as_str()) {
        Some(root) => {
            let members = copy_strings(&manifest.workspace.as_ref().unwrap().members);
            let workspace = WorkspaceManager::new(root, manifest);
            read_members_from(workspace, members, 0, adopt)
        },
        None => Outcome::Abort(Fault::ManifestWithoutParent),
    }
}

/// What the manifest at `path` leads to.
fn classify_manifest(path: String, manifest: ManifestInfo) -> (o: Outcome)
    ensures
        o@ == classify(path@, manifest@),
        outcome_ok(o@),
{
    if manifest.workspace.is_some() {
        return start_workspace(path, manifest, true);
    }
    if manifest.package.is_none() {
        return Outcome::Done(Err(LoadError::NotWorkspaceOrPackage));
    }
    let explicit = match &manifest.package.as_ref().unwrap().workspace {
        Some(ws) => Some(manifest_path_in(ws.as_str())),
        None => None,
    };
    match explicit {
        Some(workspace_path) => pend(
            Phase::ReadWorkspace { package_path: path, package: manifest, workspace_path },
        ),
        None => match path_parent(path.as_str()) {
            None => Outcome::Abort(Fault::ManifestWithoutParent),
            Some(dir) => match path_parent(dir.as_str()) {
                None => finish_package(path, manifest),
                Some(above) => {
                    let search = ManifestSearch::new(above.as_str());
                    pend(Phase::FindWorkspace { package_path: path, package: manifest, search })
                },
            },
        },
    }
}

impl Loader {
    /// A loading under way is in a well-formed state.
    #[verifier::type_invariant]
    spec fn inv(self) -> bool {
        phase_view(self.phase).wf()
    }

    /// Loading from a directory: the first `Cargo.toml` at or above it is
    /// looked for, and loaded from there.
    pub fn from_path(path: &str) -> (o: Outcome)
        ensures
            o@ == pending(
                LoaderView::FindRoot {
                    search: SearchView { start: path@, depth: 0, current: path@ },
                },
            ),
            outcome_ok(o@),
    {
        pend(Phase::FindRoot { search: ManifestSearch::new(path) })
    }

    /// Loading from the manifest at `cargo_toml_path`.
    pub fn from_cargo_toml_path(cargo_toml_path: &str) -> (o: Outcome)
        ensures
            o@ == pending(LoaderView::ReadRoot { path: cargo_toml_path@ }),
            outcome_ok(o@),
    {
        pend(Phase::ReadRoot { path: String::from_str(cargo_toml_path) })
    }

    /// The request the loader waits on.
    pub fn request(&self) -> (r: Request)
        ensures
            self@.wf(),
            r@ == self@.request(),
    {
        proof {
            use_type_invariant(self);
        }
        match &self.phase {
            Phase::FindRoot { search } => Request::FileExists(search.candidate()),
            Phase::ReadRoot { path } => Request::ReadManifest(path.clone()),
            Phase::FindWorkspace { search, .. } => Request::FileExists(search.candidate()),
            Phase::ReadWorkspace { workspace_path, .. } => Request::ReadManifest(
                workspace_path.clone(),
            ),
            Phase::ReadMembers { workspace, members, next, .. } => {
                let dir = join_path(workspace.get_workspace_root(), members[*next].as_str());
                Request::ReadManifest(manifest_path_in(dir.as_str()))
            },
        }
    }

    /// The next step of loading, given the answer to the pending request.
    pub fn resume(self, event: Event) -> (o: Outcome)
        requires
            self@.answers(event@),
        ensures
            self@.wf(),
            o@ == load_step(self@, event@),
            outcome_ok(o@),
    {
        proof {
            use_type_invariant(&self);
        }
        match self.phase {
            Phase::FindRoot { search } => {
                let exists = match event {
                    Event::FileExists(b) => b,
                    Event::Manifest(_) => false,
                };
                match search.next(exists) {
                    SearchStep::Found(path) => pend(Phase::ReadRoot { path }),
                    SearchStep::Continue(search) => pend(Phase::FindRoot { search }),
                    SearchStep::NotFound => Outcome::Done(Ok(None)),
                }
            },
            Phase::ReadRoot { path } => match event {
                Event::Manifest(Some(manifest)) => classify_manifest(path, manifest),
                _ => Outcome::Done(Err(LoadError::UnreadableManifest)),
            },
            Phase::FindWorkspace { package_path, package, search } => {
                let exists = match event {
                    Event::FileExists(b) => b,
                    Event::Manifest(_) => false,
                };
                match search.next(exists) {
                    SearchStep::Found(workspace_path) => pend(
                        Phase::ReadWorkspace { package_path, package, workspace_path },
                    ),
                    SearchStep::Continue(search) => pend(
                        Phase::FindWorkspace { package_path, package, search },
                    ),
                    SearchStep::NotFound => finish_package(package_path, package),
                }
            },
            Phase::ReadWorkspace { package_path, package, workspace_path } => match event {
                Event::Manifest(Some(manifest)) => {
                    if manifest.workspace.is_some() {
                        start_workspace(workspace_path, manifest, false)
                    } else {
                        Outcome::Abort(Fault::NotAWorkspace)
                    }
                },
                _ => finish_package(package_path, package),
            },
            Phase::ReadMembers { workspace, members, next, adopt_root } => match event {
                Event::Manifest(Some(manifest)) => {
                    if manifest.package.is_none() {
                        return Outcome::Abort(Fault::MemberWithoutPackage);
                    }
                    assert(next < members.len());
                    let dir = join_path(workspace.get_workspace_root(), members[next].as_str());
                    let package = PackageManager::new(dir, manifest);
                    proof {
                        lemma_insert_keeps_roots(workspace@, strings_view(members@), next as nat, package@);
                    }
                    let workspace = workspace.insert_package(package);
                    read_members_from(workspace, members, next + 1, adopt_root)
                },
                _ => Outcome::Abort(Fault::InvalidMemberManifest),
            },
        }
    }
}

// ---------------------------------------------------------------------------
// Whole runs of loading against a file system.

/// The answer that the file system `fs` gives to the request `r`. `fs` maps
/// the path of each file there to the manifest read from it, or to `None`
/// where the file does not read as a manifest.
pub open spec fn answer(fs: Map<Seq<char>, Option<ManifestModel>>, r: RequestView) -> EventView {
    match r {
        RequestView::FileExists(p) => EventView::FileExists(fs.dom().contains(p)),
        RequestView::ReadManifest(p) => EventView::Manifest(
            if fs.dom().contains(p) {
                fs[p]
            } else {
                None
            },
        ),
    }
}

/// Where loading stands after at most `n` requests, each answered by `fs`.
pub open spec fn run(o: OutcomeView, fs: Map<Seq<char>, Option<ManifestModel>>, n: nat) -> OutcomeView
    decreases n,
{
    match o {
        OutcomeView::Pending(l, _) => if n == 0 {
            o
        } else {
            run(load_step(l, answer(fs, l.request())), fs, (n - 1) as nat)
        },
        _ => o,
    }
}

/// The manifest that `fs` holds for the member `member` of a workspace in
/// `root`.
pub open spec fn member_manifest(
    fs: Map<Seq<char>, Option<ManifestModel>>,
    root: Seq<char>,
    member: Seq<char>,
) -> Option<ManifestModel> {
    let p = manifest_in(joined_path(root, member));
    if fs.dom().contains(p) {
        fs[p]
    } else {
        None
    }
}

/// Every member of a workspace in `root` has a readable manifest with a
/// `[package]` table in `fs`.
pub open spec fn members_readable(
    fs: Map<Seq<char>, Option<ManifestModel>>,
    root: Seq<char>,
    members: Seq<Seq<char>>,
) -> bool {
    forall|i: int|
        0 <= i < members.len() ==> ((#[trigger] member_manifest(fs, root, members[i])) matches Some(m)
            && m.package is Some)
}

/// The workspace `w` with the packages of the members from `i` on put under
/// their names, in member order.
pub open spec fn load_members(
    w: WorkspaceView,
    members: Seq<Seq<char>>,
    i: nat,
    fs: Map<Seq<char>, Option<ManifestModel>>,
) -> WorkspaceView
    decreases members.len() - i,
{
    if i < members.len() {
        load_members(
            WorkspaceView {
                packages: insert_by_name(
                    w.packages,
                    PackageView {
                        root: joined_path(w.root, members[i as int]),
                        manifest: member_manifest(fs, w.root, members[i as int]).unwrap(),
                    },
                ),
                ..w
            },
            members,
            i + 1,
            fs,
        )
    } else {
        w
    }
}

/// The workspace in `root` with root manifest `m`, its members' packages
/// read from `fs`.
pub open spec fn workspace_tree(
    root: Seq<char>,
    m: ManifestModel,
    fs: Map<Seq<char>, Option<ManifestModel>>,
) -> WorkspaceView {
    load_members(
        WorkspaceView { root, root_manifest: m, packages: Seq::empty() },
        m.members.unwrap(),
        0,
        fs,
    )
}

/// The search state `k` directories above `start`, for loading from a
/// directory.
pub open spec fn root_search(start: Seq<char>, k: nat) -> LoaderView {
    LoaderView::FindRoot {
        search: SearchView { start, depth: k, current: ancestor(start, k).unwrap() },
    }
}

/// The search state `k` directories above `start`, for the workspace of the
/// package whose manifest is at `path`.
pub open spec fn workspace_search(
    path: Seq<char>,
    m: ManifestModel,
    start: Seq<char>,
    k: nat,
) -> LoaderView {
    LoaderView::FindWorkspace {
        package_path: path,
        package: m,
        search: SearchView { start, depth: k, current: ancestor(start, k).unwrap() },
    }
}

/// No manifest in `fs` is in the directories `j` to `k - 1` above `start`.
pub open spec fn no_manifest_between(
    fs: Map<Seq<char>, Option<ManifestModel>>,
    start: Seq<char>,
    j: nat,
    k: nat,
) -> bool {
    forall|i: nat| j <= i < k ==> !fs.dom().contains(#[trigger] manifest_in(ancestor(start, i).unwrap()))
}

proof fn lemma_members_from_ok(w: WorkspaceView, members: Seq<Seq<char>>, next: nat, adopt: bool)
    requires
        w.wf(),
        next <= members.len(),
        w.root_manifest.members == Some(members),
        package_roots_listed(w, members),
    ensures
        outcome_ok(members_from(w, members, next, adopt)),
{
    if next >= members.len() && adopt {
        lemma_adopt_wf(w);
        lemma_adopt_keeps_roots(w, members);
    }
}

proof fn lemma_workspace_start_ok(path: Seq<char>, m: ManifestModel, adopt: bool)
    requires
        m.members is Some,
    ensures
        outcome_ok(workspace_start(path, m, adopt)),
{
    if let Some(root) = parent_path(path) {
        let w = WorkspaceView { root, root_manifest: m, packages: Seq::empty() };
        lemma_members_from_ok(w, m.members.unwrap(), 0, adopt);
    }
}

proof fn lemma_search_continues_ok(s: SearchView, exists: bool)
    requires
        s.wf(),
    ensures
        search_step(s, exists) matches SearchStepView::Continue(t) ==> t.wf(),
{
}

/// A step from a well-formed state, on an answer to its request, keeps
/// loading as it should be: the next state is well formed, a finished tree
/// is `loaded`.
pub proof fn law_step_keeps_loading_ok(l: LoaderView, e: EventView)
    requires
        l.wf(),
        l.answers(e),
    ensures
        outcome_ok(load_step(l, e)),
{
    match l {
        LoaderView::FindRoot { search } => {
            lemma_search_continues_ok(search, e->FileExists_0);
        },
        LoaderView::ReadRoot { path } => {
            if let Some(m) = e->Manifest_0 {
                if m.members is Some {
                    lemma_workspace_start_ok(path, m, true);
                } else if m.package is Some && m.package.unwrap().workspace is None {
                    if let Some(dir) = parent_path(path) {
                        if let Some(above) = parent_path(dir) {
                            assert(ancestor(above, 0) == Some(above));
                        }
                    }
                }
            }
        },
        LoaderView::FindWorkspace { search, .. } => {
            lemma_search_continues_ok(search, e->FileExists_0);
        },
        LoaderView::ReadWorkspace { workspace_path, .. } => {
            if let Some(w) = e->Manifest_0 {
                if w.members is Some {
                    lemma_workspace_start_ok(workspace_path, w, false);
                }
            }
        },
        LoaderView::ReadMembers { workspace, members, next, adopt_root } => {
            if let Some(m) = e->Manifest_0 {
                if m.package is Some {
                    let p = PackageView {
                        root: joined_path(workspace.root, members[next as int]),
                        manifest: m,
                    };
                    let w2 = WorkspaceView {
                        packages: insert_by_name(workspace.packages, p),
                        ..workspace
                    };
                    law_insert_by_name(workspace.packages, p, p.name());
                    lemma_insert_elements(workspace.packages, p);
                    lemma_insert_keeps_roots(workspace, members, next, p);
                    assert forall|i: int| 0 <= i < w2.packages.len() implies (
                    #[trigger] w2.packages[i]).wf() by {
                        if w2.packages[i] != p {
                            assert(w2.packages[i] == workspace.packages[i]);
                        }
                    }
                    lemma_members_from_ok(w2, members, next + 1, adopt_root);
                }
            }
        },
    }
}

/// Whole runs keep loading as it should be: from a state as loading leaves
/// it, however many requests the file system answers, every state reached is
/// well formed and every tree loaded is `loaded` (well formed, names unique,
/// packages in the workspace's or its members' directories).
pub proof fn law_runs_keep_loading_ok(o: OutcomeView, fs: Map<Seq<char>, Option<ManifestModel>>, n: nat)
    requires
        outcome_ok(o),
    ensures
        outcome_ok(run(o, fs, n)),
    decreases n,
{
    if let OutcomeView::Pending(l, _) = o {
        if n > 0 {
            law_step_keeps_loading_ok(l, answer(fs, l.request()));
            law_runs_keep_loading_ok(load_step(l, answer(fs, l.request())), fs, (n - 1) as nat);
        }
    }
}

/// A run of `a + b` requests is a run of `a` requests followed by one of `b`.
pub proof fn law_run_in_parts(o: OutcomeView, fs: Map<Seq<char>, Option<ManifestModel>>, a: nat, b: nat)
    ensures
        run(o, fs, a + b) == run(run(o, fs, a), fs, b),
    decreases a,
{
    if let OutcomeView::Pending(l, _) = o {
        if a > 0 {
            law_run_in_parts(load_step(l, answer(fs, l.request())), fs, (a - 1) as nat, b);
            assert((a + b - 1) as nat == (a - 1) as nat + b);
        }
    } else {
        lemma_run_finished(o, fs, b);
        lemma_run_finished(o, fs, a + b);
    }
}

proof fn lemma_run_unfold(o: OutcomeView, fs: Map<Seq<char>, Option<ManifestModel>>, n: nat)
    ensures
        n == 0 ==> run(o, fs, n) == o,
        o matches OutcomeView::Pending(l, _) ==> (n > 0 ==> run(o, fs, n) == run(
            load_step(l, answer(fs, l.request())),
            fs,
            (n - 1) as nat,
        )),
{
}

proof fn lemma_run_finished(o: OutcomeView, fs: Map<Seq<char>, Option<ManifestModel>>, n: nat)
    requires
        !(o is Pending),
    ensures
        run(o, fs, n) == o,
{
}

/// However many requests the file system answers, a loading that starts from
/// a manifest path never ends without a tree: it is still pending, or it has
/// a package, a workspace, an error or a fault.
pub proof fn law_manifest_path_run_yields_a_tree(
    path: Seq<char>,
    fs: Map<Seq<char>, Option<ManifestModel>>,
    n: nat,
)
    ensures
        !(run(pending(LoaderView::ReadRoot { path }), fs, n) matches OutcomeView::Done(Ok(None))),
{
    lemma_run_past_search(pending(LoaderView::ReadRoot { path }), fs, n);
}

proof fn lemma_run_past_search(o: OutcomeView, fs: Map<Seq<char>, Option<ManifestModel>>, n: nat)
    requires
        !(o matches OutcomeView::Done(Ok(None))),
        o matches OutcomeView::Pending(l, _) ==> !(l is FindRoot),
    ensures
        !(run(o, fs, n) matches OutcomeView::Done(Ok(None))),
    decreases n,
{
    if let OutcomeView::Pending(l, _) = o {
        if n > 0 {
            law_manifest_path_yields_a_tree(l, answer(fs, l.request()));
            lemma_run_past_search(load_step(l, answer(fs, l.request())), fs, (n - 1) as nat);
        }
    }
}

proof fn lemma_root_search_run(start: Seq<char>, fs: Map<Seq<char>, Option<ManifestModel>>, j: nat, k: nat)
    requires
        j <= k,
        ancestor(start, k) is Some,
        no_manifest_between(fs, start, j, k),
        fs.dom().contains(manifest_in(ancestor(start, k).unwrap())),
    ensures
        run(pending(root_search(start, j)), fs, (k - j + 1) as nat) == pending(
            LoaderView::ReadRoot { path: manifest_in(ancestor(start, k).unwrap()) },
        ),
    decreases k - j,
{
    lemma_ancestors_before(start, j, k);
    let d = ancestor(start, j).unwrap();
    let o = pending(root_search(start, j));
    lemma_run_unfold(o, fs, (k - j + 1) as nat);
    if j < k {
        lemma_ancestors_before(start, j + 1, k);
        assert(!fs.dom().contains(manifest_in(ancestor(start, j).unwrap())));
        assert(ancestor(start, j + 1) == parent_path(d));
        lemma_root_search_run(start, fs, j + 1, k);
        assert((k - j + 1 - 1) as nat == (k - (j + 1) + 1) as nat);
    } else {
        lemma_run_unfold(
            pending(LoaderView::ReadRoot { path: manifest_in(ancestor(start, k).unwrap()) }),
            fs,
            0,
        );
    }
}

proof fn lemma_ancestors_before(start: Seq<char>, j: nat, k: nat)
    requires
        j <= k,
        ancestor(start, k) is Some,
    ensures
        ancestor(start, j) is Some,
    decreases k - j,
{
    if j < k {
        lemma_ancestors_before(start, j + 1, k);
    }
}

proof fn lemma_root_search_run_none(start: Seq<char>, fs: Map<Seq<char>, Option<ManifestModel>>, j: nat, k: nat)
    requires
        j <= k,
        ancestor(start, k) is Some,
        ancestor(start, k + 1) is None,
        no_manifest_between(fs, start, j, k + 1),
    ensures
        run(pending(root_search(start, j)), fs, (k - j + 1) as nat) == OutcomeView::Done(Ok(None)),
    decreases k - j,
{
    lemma_ancestors_before(start, j, k);
    let d = ancestor(start, j).unwrap();
    assert(!fs.dom().contains(manifest_in(ancestor(start, j).unwrap())));
    assert(ancestor(start, j + 1) == parent_path(d));
    lemma_run_unfold(pending(root_search(start, j)), fs, (k - j + 1) as nat);
    if j < k {
        lemma_ancestors_before(start, j + 1, k);
        lemma_root_search_run_none(start, fs, j + 1, k);
        assert((k - j + 1 - 1) as nat == (k - (j + 1) + 1) as nat);
    }
}

/// Loading from a directory loads from the nearest manifest: where the
/// `k`-th directory above `start` holds the first `Cargo.toml` at or above
/// it, after `k + 1` answers loading stands where loading from that manifest
/// path starts.
pub proof fn law_from_path_loads_nearest_manifest(
    start: Seq<char>,
    fs: Map<Seq<char>, Option<ManifestModel>>,
    k: nat,
)
    requires
        ancestor(start, k) is Some,
        no_manifest_between(fs, start, 0, k),
        fs.dom().contains(manifest_in(ancestor(start, k).unwrap())),
    ensures
        run(
            pending(
                LoaderView::FindRoot {
                    search: SearchView { start, depth: 0, current: start },
                },
            ),
            fs,
            k + 1,
        ) == pending(LoaderView::ReadRoot { path: manifest_in(ancestor(start, k).unwrap()) }),
{
    assert(root_search(start, 0) == LoaderView::FindRoot {
        search: SearchView { start, depth: 0, current: start },
    });
    lemma_root_search_run(start, fs, 0, k);
}

/// Loading from a directory none of whose ancestors holds a `Cargo.toml`
/// ends with no tree: where `start` has `k` directories above it and none of
/// them, nor `start`, holds a manifest, after `k + 1` answers loading is done
/// with nothing found.
pub proof fn law_from_path_without_manifest(
    start: Seq<char>,
    fs: Map<Seq<char>, Option<ManifestModel>>,
    k: nat,
)
    requires
        ancestor(start, k) is Some,
        ancestor(start, k + 1) is None,
        no_manifest_between(fs, start, 0, k + 1),
    ensures
        run(
            pending(
                LoaderView::FindRoot {
                    search: SearchView { start, depth: 0, current: start },
                },
            ),
            fs,
            k + 1,
        ) == OutcomeView::Done(Ok(None)),
{
    assert(root_search(start, 0) == LoaderView::FindRoot {
        search: SearchView { start, depth: 0, current: start },
    });
    lemma_root_search_run_none(start, fs, 0, k);
}

proof fn lemma_members_run(
    w: WorkspaceView,
    members: Seq<Seq<char>>,
    next: nat,
    adopt: bool,
    fs: Map<Seq<char>, Option<ManifestModel>>,
)
    requires
        next <= members.len(),
        members_readable(fs, w.root, members),
    ensures
        run(members_from(w, members, next, adopt), fs, (members.len() - next) as nat)
            == OutcomeView::Done(
            Ok(
                Some(
                    ManagerView::Workspace(
                        if adopt {
                            adopt_root(load_members(w, members, next, fs))
                        } else {
                            load_members(w, members, next, fs)
                        },
                    ),
                ),
            ),
        ),
    decreases members.len() - next,
{
    if next < members.len() {
        let m = member_manifest(fs, w.root, members[next as int]);
        assert(m matches Some(mm) && mm.package is Some);
        let w2 = WorkspaceView {
            packages: insert_by_name(
                w.packages,
                PackageView { root: joined_path(w.root, members[next as int]), manifest: m.unwrap() },
            ),
            ..w
        };
        lemma_members_run(w2, members, next + 1, adopt, fs);
        assert((members.len() - next - 1) as nat == (members.len() - (next + 1)) as nat);
    }
}

/// The tree loaded from a workspace manifest is the workspace with its
/// members' packages put under their names in member order, and the root's
/// own package listed: where `fs` holds the workspace manifest `m` at `path`
/// and a package manifest for every member, loading from `path` is done after
/// one answer per member and one more.
pub proof fn law_workspace_manifest_loads(
    path: Seq<char>,
    m: ManifestModel,
    fs: Map<Seq<char>, Option<ManifestModel>>,
)
    requires
        fs.dom().contains(path),
        fs[path] == Some(m),
        m.members is Some,
        parent_path(path) is Some,
        members_readable(fs, parent_path(path).unwrap(), m.members.unwrap()),
    ensures
        run(pending(LoaderView::ReadRoot { path }), fs, m.members.unwrap().len() + 1)
            == OutcomeView::Done(
            Ok(
                Some(
                    ManagerView::Workspace(
                        adopt_root(workspace_tree(parent_path(path).unwrap(), m, fs)),
                    ),
                ),
            ),
        ),
{
    let root = parent_path(path).unwrap();
    let w = WorkspaceView { root, root_manifest: m, packages: Seq::empty() };
    lemma_members_run(w, m.members.unwrap(), 0, true, fs);
    assert((m.members.unwrap().len() + 1 - 1) as nat == (m.members.unwrap().len() - 0) as nat);
}

proof fn lemma_workspace_search_run(
    path: Seq<char>,
    m: ManifestModel,
    start: Seq<char>,
    fs: Map<Seq<char>, Option<ManifestModel>>,
    j: nat,
    k: nat,
)
    requires
        j <= k,
        ancestor(start, k) is Some,
        no_manifest_between(fs, start, j, k),
        fs.dom().contains(manifest_in(ancestor(start, k).unwrap())),
    ensures
        run(pending(workspace_search(path, m, start, j)), fs, (k - j + 1) as nat) == pending(
            LoaderView::ReadWorkspace {
                package_path: path,
                package: m,
                workspace_path: manifest_in(ancestor(start, k).unwrap()),
            },
        ),
    decreases k - j,
{
    lemma_ancestors_before(start, j, k);
    let d = ancestor(start, j).unwrap();
    lemma_run_unfold(pending(workspace_search(path, m, start, j)), fs, (k - j + 1) as nat);
    if j < k {
        lemma_ancestors_before(start, j + 1, k);
        assert(!fs.dom().contains(manifest_in(ancestor(start, j).unwrap())));
        assert(ancestor(start, j + 1) == parent_path(d));
        lemma_workspace_search_run(path, m, start, fs, j + 1, k);
        assert((k - j + 1 - 1) as nat == (k - (j + 1) + 1) as nat);
    } else {
        lemma_run_unfold(
            pending(
                LoaderView::ReadWorkspace {
                    package_path: path,
                    package: m,
                    workspace_path: manifest_in(ancestor(start, k).unwrap()),
                },
            ),
            fs,
            0,
        );
    }
}

proof fn lemma_workspace_search_run_none(
    path: Seq<char>,
    m: ManifestModel,
    start: Seq<char>,
    fs: Map<Seq<char>, Option<ManifestModel>>,
    j: nat,
    k: nat,
)
    requires
        j <= k,
        ancestor(start, k) is Some,
        ancestor(start, k + 1) is None,
        no_manifest_between(fs, start, j, k + 1),
    ensures
        run(pending(workspace_search(path, m, start, j)), fs, (k - j + 1) as nat) == package_done(
            path,
            m,
        ),
    decreases k - j,
{
    lemma_ancestors_before(start, j, k);
    let d = ancestor(start, j).unwrap();
    assert(!fs.dom().contains(manifest_in(ancestor(start, j).unwrap())));
    assert(ancestor(start, j + 1) == parent_path(d));
    if j < k {
        lemma_ancestors_before(start, j + 1, k);
        lemma_workspace_search_run_none(path, m, start, fs, j + 1, k);
        assert((k - j + 1 - 1) as nat == (k - (j + 1) + 1) as nat);
    } else {
        let o = package_done(path, m);
        lemma_run_finished(o, fs, 0);
    }
}

/// A package without a workspace key, with no manifest in any directory
/// above its own, loads as that package alone: where the package's directory
/// has the directory `above` over it, `above` has `k` directories over it,
/// and none of those nor `above` holds a manifest, loading from the package's
/// manifest is done after `k + 2` answers with the package, in its
/// manifest's directory.
pub proof fn law_lone_package_loads(
    path: Seq<char>,
    m: ManifestModel,
    fs: Map<Seq<char>, Option<ManifestModel>>,
    k: nat,
)
    requires
        fs.dom().contains(path),
        fs[path] == Some(m),
        m.members is None,
        (m.package matches Some(p) && p.workspace is None),
        (parent_path(path) matches Some(dir) && parent_path(dir) is Some),
        ancestor(parent_path(parent_path(path).unwrap()).unwrap(), k) is Some,
        ancestor(parent_path(parent_path(path).unwrap()).unwrap(), k + 1) is None,
        no_manifest_between(fs, parent_path(parent_path(path).unwrap()).unwrap(), 0, k + 1),
    ensures
        run(pending(LoaderView::ReadRoot { path }), fs, k + 2) == OutcomeView::Done(
            Ok(
                Some(
                    ManagerView::Package(
                        PackageView { root: parent_path(path).unwrap(), manifest: m },
                    ),
                ),
            ),
        ),
{
    let above = parent_path(parent_path(path).unwrap()).unwrap();
    assert(workspace_search(path, m, above, 0) == LoaderView::FindWorkspace {
        package_path: path,
        package: m,
        search: SearchView { start: above, depth: 0, current: above },
    });
    lemma_workspace_search_run_none(path, m, above, fs, 0, k);
    assert((k + 2 - 1) as nat == (k - 0 + 1) as nat);
}

/// A package without a workspace key, below a workspace, loads as that
/// workspace: where the `k`-th directory over the directory `above` the
/// package's own holds the first manifest there, and that manifest is a
/// workspace whose members all read as packages, loading from the package's
/// manifest is done after `k + 2` answers, one per member and one more, with
/// the workspace tree read from `fs`, whose root manifest is the workspace
/// manifest unchanged (the root's package is not added here).
pub proof fn law_package_in_workspace_loads(
    path: Seq<char>,
    m: ManifestModel,
    fs: Map<Seq<char>, Option<ManifestModel>>,
    k: nat,
    ws: ManifestModel,
)
    requires
        fs.dom().contains(path),
        fs[path] == Some(m),
        m.members is None,
        (m.package matches Some(p) && p.workspace is None),
        (parent_path(path) matches Some(dir) && parent_path(dir) is Some),
        ancestor(parent_path(parent_path(path).unwrap()).unwrap(), k) is Some,
        no_manifest_between(fs, parent_path(parent_path(path).unwrap()).unwrap(), 0, k),
        fs.dom().contains(
            manifest_in(ancestor(parent_path(parent_path(path).unwrap()).unwrap(), k).unwrap()),
        ),
        fs[manifest_in(ancestor(parent_path(parent_path(path).unwrap()).unwrap(), k).unwrap())]
            == Some(ws),
        ws.members is Some,
        parent_path(
            manifest_in(ancestor(parent_path(parent_path(path).unwrap()).unwrap(), k).unwrap()),
        ) is Some,
        members_readable(
            fs,
            parent_path(
                manifest_in(ancestor(parent_path(parent_path(path).unwrap()).unwrap(), k).unwrap()),
            ).unwrap(),
            ws.members.unwrap(),
        ),
    ensures
        run(pending(LoaderView::ReadRoot { path }), fs, k + 3 + ws.members.unwrap().len())
            == OutcomeView::Done(
            Ok(
                Some(
                    ManagerView::Workspace(
                        workspace_tree(
                            parent_path(
                                manifest_in(
                                    ancestor(
                                        parent_path(parent_path(path).unwrap()).unwrap(),
                                        k,
                                    ).unwrap(),
                                ),
                            ).unwrap(),
                            ws,
                            fs,
                        ),
                    ),
                ),
            ),
        ),
        workspace_tree(
            parent_path(
                manifest_in(ancestor(parent_path(parent_path(path).unwrap()).unwrap(), k).unwrap()),
            ).unwrap(),
            ws,
            fs,
        ).root_manifest == ws,
{
    let above = parent_path(parent_path(path).unwrap()).unwrap();
    let wp = manifest_in(ancestor(above, k).unwrap());
    let root = parent_path(wp).unwrap();
    let members = ws.members.unwrap();
    let start = pending(LoaderView::ReadRoot { path });
    assert(workspace_search(path, m, above, 0) == LoaderView::FindWorkspace {
        package_path: path,
        package: m,
        search: SearchView { start: above, depth: 0, current: above },
    });
    // one answer: the package manifest; then k + 1 answers: the search
    lemma_run_unfold(start, fs, 1);
    lemma_run_unfold(pending(workspace_search(path, m, above, 0)), fs, 0);
    assert(run(start, fs, 1) == pending(workspace_search(path, m, above, 0)));
    lemma_workspace_search_run(path, m, above, fs, 0, k);
    law_run_in_parts(start, fs, 1, k + 1);
    let found = pending(
        LoaderView::ReadWorkspace { package_path: path, package: m, workspace_path: wp },
    );
    assert(run(start, fs, 1 + (k + 1)) == found);
    // one answer: the workspace manifest; then one per member
    let w = WorkspaceView { root, root_manifest: ws, packages: Seq::empty() };
    lemma_members_run(w, members, 0, false, fs);
    lemma_run_unfold(found, fs, 1);
    lemma_run_unfold(members_from(w, members, 0, false), fs, 0);
    assert(run(found, fs, 1) == members_from(w, members, 0, false));
    law_run_in_parts(found, fs, 1, members.len());
    law_run_in_parts(start, fs, 1 + (k + 1), 1 + members.len());
    assert(k + 3 + members.len() == 1 + (k + 1) + (1 + members.len()));
    lemma_load_members_keeps_root(w, members, 0, fs);
}

/// A package manifest with no workspace key, whose directory has no
/// directory above it (such as a relative `Cargo.toml` in the current
/// directory, whose directory is the empty path), loads at once as that
/// package alone, in its manifest's directory: there is nothing above to look
/// for a workspace in.
pub proof fn law_package_without_directory_above_loads_alone(path: Seq<char>, m: ManifestModel)
    requires
        m.members is None,
        (m.package matches Some(p) && p.workspace is None),
        (parent_path(path) matches Some(dir) && parent_path(dir) is None),
    ensures
        load_step(LoaderView::ReadRoot { path }, EventView::Manifest(Some(m))) == OutcomeView::Done(
            Ok(
                Some(
                    ManagerView::Package(
                        PackageView { root: parent_path(path).unwrap(), manifest: m },
                    ),
                ),
            ),
        ),
{
}

/// A package manifest without a workspace key never becomes a workspace in
/// its first step: it is the package itself, a search above it, or a fault
/// where its path has no directory; and the package found is always in the
/// manifest's directory.
pub proof fn law_package_manifest_first_step(path: Seq<char>, m: ManifestModel)
    requires
        m.members is None,
        (m.package matches Some(p) && p.workspace is None),
    ensures
        ({
            let o = load_step(LoaderView::ReadRoot { path }, EventView::Manifest(Some(m)));
            &&& parent_path(path) is None ==> o == OutcomeView::Abort(Fault::ManifestWithoutParent)
            &&& parent_path(path) is Some ==> !(o is Abort)
            &&& o matches OutcomeView::Done(Ok(Some(t))) ==> t == ManagerView::Package(
                PackageView { root: parent_path(path).unwrap(), manifest: m },
            )
            &&& !(o matches OutcomeView::Done(Ok(Some(ManagerView::Workspace(_)))))
        }),
{
}

/// The workspace read for a package, whether named by its workspace key or
/// found above it, is taken as it is: its root's own package is not listed
/// and its members are not changed. Where that workspace manifest has no
/// members, the tree is the bare workspace in the manifest's directory with
/// no package; else the members are read from the first on, and nothing is
/// to be added at the end.
pub proof fn law_workspace_of_a_package_is_not_adopted(
    package_path: Seq<char>,
    package: ManifestModel,
    workspace_path: Seq<char>,
    w: ManifestModel,
)
    requires
        w.members is Some,
        parent_path(workspace_path) is Some,
    ensures
        ({
            let o = load_step(
                LoaderView::ReadWorkspace { package_path, package, workspace_path },
                EventView::Manifest(Some(w)),
            );
            let bare = WorkspaceView {
                root: parent_path(workspace_path).unwrap(),
                root_manifest: w,
                packages: Seq::empty(),
            };
            &&& w.members.unwrap().len() == 0 ==> o == OutcomeView::Done(
                Ok(Some(ManagerView::Workspace(bare))),
            )
            &&& w.members.unwrap().len() > 0 ==> (o matches OutcomeView::Pending(
                LoaderView::ReadMembers { workspace, members, next, adopt_root },
                _,
            ) && workspace == bare && members == w.members.unwrap() && next == 0 && !adopt_root)
        }),
{
}

proof fn lemma_load_members_keeps_root(
    w: WorkspaceView,
    members: Seq<Seq<char>>,
    i: nat,
    fs: Map<Seq<char>, Option<ManifestModel>>,
)
    ensures
        load_members(w, members, i, fs).root == w.root,
        load_members(w, members, i, fs).root_manifest == w.root_manifest,
    decreases members.len() - i,
{
    if i < members.len() {
        let w2 = WorkspaceView {
            packages: insert_by_name(
                w.packages,
                PackageView {
                    root: joined_path(w.root, members[i as int]),
                    manifest: member_manifest(fs, w.root, members[i as int]).unwrap(),
                },
            ),
            ..w
        };
        lemma_load_members_keeps_root(w2, members, i + 1, fs);
    }
}

/// A package whose workspace key names a workspace loads as that workspace,
/// taken as it is: where `fs` holds the workspace manifest `ws` at the key's
/// `Cargo.toml` and a package manifest for each of its members, loading from
/// the package's manifest is done after two answers and one per member, with
/// the workspace in the key's directory, its root manifest unchanged (no
/// member added, the root's own package not listed), and its members'
/// packages read from `fs`.
pub proof fn law_package_with_workspace_key_loads(
    path: Seq<char>,
    m: ManifestModel,
    fs: Map<Seq<char>, Option<ManifestModel>>,
    ws: ManifestModel,
)
    requires
        fs.dom().contains(path),
        fs[path] == Some(m),
        m.members is None,
        (m.package matches Some(p) && p.workspace is Some),
        fs.dom().contains(manifest_in(m.package.unwrap().workspace.unwrap())),
        fs[manifest_in(m.package.unwrap().workspace.unwrap())] == Some(ws),
        ws.members is Some,
        parent_path(manifest_in(m.package.unwrap().workspace.unwrap())) is Some,
        members_readable(
            fs,
            parent_path(manifest_in(m.package.unwrap().workspace.unwrap())).unwrap(),
            ws.members.unwrap(),
        ),
    ensures
        ({
            let root = parent_path(manifest_in(m.package.unwrap().workspace.unwrap())).unwrap();
            let t = workspace_tree(root, ws, fs);
            &&& run(pending(LoaderView::ReadRoot { path }), fs, 2 + ws.members.unwrap().len())
                == OutcomeView::Done(Ok(Some(ManagerView::Workspace(t))))
            &&& t.root == root
            &&& t.root_manifest == ws
        }),
{
    let wp = manifest_in(m.package.unwrap().workspace.unwrap());
    let root = parent_path(wp).unwrap();
    let members = ws.members.unwrap();
    let start = pending(LoaderView::ReadRoot { path });
    let found = pending(
        LoaderView::ReadWorkspace { package_path: path, package: m, workspace_path: wp },
    );
    lemma_run_unfold(start, fs, 1);
    lemma_run_unfold(found, fs, 0);
    assert(run(start, fs, 1) == found);
    let w = WorkspaceView { root, root_manifest: ws, packages: Seq::empty() };
    lemma_members_run(w, members, 0, false, fs);
    lemma_run_unfold(found, fs, 1);
    lemma_run_unfold(members_from(w, members, 0, false), fs, 0);
    assert(run(found, fs, 1) == members_from(w, members, 0, false));
    law_run_in_parts(found, fs, 1, members.len());
    law_run_in_parts(start, fs, 1, 1 + members.len());
    assert(2 + members.len() == 1 + (1 + members.len()));
    assert((members.len() - 0) as nat == members.len());
    lemma_load_members_keeps_root(w, members, 0, fs);
}

/// What each kind of answer does to a loading, stated by its result: an
/// unreadable starting manifest is an error, and so is one with neither a
/// package nor a workspace; a package whose workspace key names a directory
/// goes on to read that directory's `Cargo.toml`; a workspace manifest starts
/// reading its first member, in the workspace's directory, with the root's
/// package to be listed at the end. For a package's workspace, an unreadable
/// manifest leaves the package alone in its directory, and one without a
/// workspace table is a fault. A member manifest that cannot be read, or that
/// has no package, is a fault.
pub proof fn law_loading_answers(path: Seq<char>, m: ManifestModel)
    ensures
        load_step(LoaderView::ReadRoot { path }, EventView::Manifest(None)) == OutcomeView::Done(
            Err(LoadError::UnreadableManifest),
        ),
        m.package is None && m.members is None ==> load_step(
            LoaderView::ReadRoot { path },
            EventView::Manifest(Some(m)),
        ) == OutcomeView::Done(Err(LoadError::NotWorkspaceOrPackage)),
        m.members is None ==> (m.package matches Some(p) ==> (p.workspace matches Some(key)
            ==> load_step(LoaderView::ReadRoot { path }, EventView::Manifest(Some(m)))
            == OutcomeView::Pending(
            LoaderView::ReadWorkspace { package_path: path, package: m, workspace_path: manifest_in(key) },
            RequestView::ReadManifest(manifest_in(key)),
        ))),
        m.members matches Some(ms) ==> (ms.len() > 0 ==> (parent_path(path) matches Some(root)
            ==> load_step(LoaderView::ReadRoot { path }, EventView::Manifest(Some(m)))
            == OutcomeView::Pending(
            LoaderView::ReadMembers {
                workspace: WorkspaceView { root, root_manifest: m, packages: Seq::empty() },
                members: ms,
                next: 0,
                adopt_root: true,
            },
            RequestView::ReadManifest(manifest_in(joined_path(root, ms[0]))),
        ))),
        m.members is Some && parent_path(path) is None ==> load_step(
            LoaderView::ReadRoot { path },
            EventView::Manifest(Some(m)),
        ) == OutcomeView::Abort(Fault::ManifestWithoutParent),
{
}

/// The answers a package's workspace read and a member read can get, stated
/// by their results.
pub proof fn law_workspace_reads(
    package_path: Seq<char>,
    package: ManifestModel,
    workspace_path: Seq<char>,
    w: WorkspaceView,
    members: Seq<Seq<char>>,
    next: nat,
    adopt: bool,
    m: ManifestModel,
)
    ensures
        parent_path(package_path) matches Some(dir) ==> load_step(
            LoaderView::ReadWorkspace { package_path, package, workspace_path },
            EventView::Manifest(None),
        ) == OutcomeView::Done(
            Ok(Some(ManagerView::Package(PackageView { root: dir, manifest: package }))),
        ),
        m.members is None ==> load_step(
            LoaderView::ReadWorkspace { package_path, package, workspace_path },
            EventView::Manifest(Some(m)),
        ) == OutcomeView::Abort(Fault::NotAWorkspace),
        load_step(
            LoaderView::ReadMembers { workspace: w, members, next, adopt_root: adopt },
            EventView::Manifest(None),
        ) == OutcomeView::Abort(Fault::InvalidMemberManifest),
        m.package is None ==> load_step(
            LoaderView::ReadMembers { workspace: w, members, next, adopt_root: adopt },
            EventView::Manifest(Some(m)),
        ) == OutcomeView::Abort(Fault::MemberWithoutPackage),
        (m.package is Some && next + 1 < members.len() && names_unique(w.packages)) ==> (load_step(
            LoaderView::ReadMembers { workspace: w, members, next, adopt_root: adopt },
            EventView::Manifest(Some(m)),
        ) matches OutcomeView::Pending(LoaderView::ReadMembers { workspace, members: ms, next: n, adopt_root: a }, _)
            && ms == members && n == next + 1 && a == adopt && workspace.root == w.root
            && workspace.root_manifest == w.root_manifest && has_package_named(
            workspace.packages,
            m.package.unwrap().name,
        ) && workspace.packages[index_named(workspace.packages, m.package.unwrap().name)]
            == PackageView { root: joined_path(w.root, members[next as int]), manifest: m }),
{
    if m.package is Some && next + 1 < members.len() && names_unique(w.packages) {
        let p = PackageView { root: joined_path(w.root, members[next as int]), manifest: m };
        law_insert_by_name(w.packages, p, p.name());
    }
}

} // verus!
