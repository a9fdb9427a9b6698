use std::collections::HashMap;

use cot_cli::loader::{Event, Fault, LoadError, Loader, Outcome, Request};
use cot_cli::manager::{CargoTomlManager, PackageManager, WorkspaceManager};
use cot_cli::manifest::{ManifestInfo, PackageInfo, WorkspaceInfo};
use cot_cli::search::{ManifestSearch, SearchStep};

/// An in-memory file system: each path that exists, with the manifest it
/// holds, or `None` where the file is there but cannot be read as one.
#[derive(Default)]
struct FakeFs {
    files: HashMap<String, Option<ManifestInfo>>,
}

impl FakeFs {
    fn add(&mut self, path: &str, manifest: Option<ManifestInfo>) {
        self.files.insert(path.to_string(), manifest);
    }

    fn answer(&self, request: &Request) -> Event {
        match request {
            Request::FileExists(p) => Event::FileExists(self.files.contains_key(p)),
            Request::ReadManifest(p) => Event::Manifest(self.files.get(p).cloned().flatten()),
        }
    }
}

enum Ending {
    Done(Result<Option<CargoTomlManager>, LoadError>),
    Abort(Fault),
}

fn drive(mut outcome: Outcome, fs: &FakeFs) -> Ending {
    loop {
        match outcome {
            Outcome::Pending(loader, request) => {
                let event = fs.answer(&request);
                outcome = loader.resume(event);
            }
            Outcome::Done(r) => return Ending::Done(r),
            Outcome::Abort(f) => return Ending::Abort(f),
        }
    }
}

fn load(outcome: Outcome, fs: &FakeFs) -> Result<Option<CargoTomlManager>, LoadError> {
    match drive(outcome, fs) {
        Ending::Done(r) => r,
        Ending::Abort(f) => panic!("{}", f.message()),
    }
}

fn from_path(dir: &str, fs: &FakeFs) -> Result<Option<CargoTomlManager>, LoadError> {
    load(Loader::from_path(dir), fs)
}

fn package(name: &str) -> ManifestInfo {
    ManifestInfo {
        package: Some(PackageInfo { name: name.to_string(), workspace: None }),
        workspace: None,
    }
}

fn workspace(members: &[&str]) -> ManifestInfo {
    ManifestInfo {
        package: None,
        workspace: Some(WorkspaceInfo { members: members.iter().map(|m| m.to_string()).collect() }),
    }
}

fn nth_crate_name(n: u8) -> String {
    format!("cot-test-crate-{n}")
}

/// A package named after the last component of `dir`, in `dir`.
fn make_package(fs: &mut FakeFs, dir: &str) {
    let name = dir.rsplit('/').next().unwrap();
    fs.add(&format!("{dir}/Cargo.toml"), Some(package(name)));
}

/// A virtual workspace in `dir` with `n` member packages, each in a
/// directory of its own name.
fn make_workspace_package(fs: &mut FakeFs, dir: &str, n: u8) {
    let names: Vec<String> = (1..=n).map(nth_crate_name).collect();
    let refs: Vec<&str> = names.iter().map(|s| s.as_str()).collect();
    fs.add(&format!("{dir}/Cargo.toml"), Some(workspace(&refs)));
    for name in &names {
        fs.add(&format!("{dir}/{name}/Cargo.toml"), Some(package(name)));
    }
}

fn get_workspace(packages: u8) -> (String, WorkspaceManager) {
    let dir = "/tmp/cot-test-ws".to_string();
    let mut fs = FakeFs::default();
    make_workspace_package(&mut fs, &dir, packages);
    match from_path(&dir, &fs).unwrap().unwrap() {
        CargoTomlManager::Workspace(manager) => (dir, manager),
        _ => unreachable!(),
    }
}

fn get_package() -> (String, PackageManager) {
    let dir = "/tmp/cot-test-pkg".to_string();
    let mut fs = FakeFs::default();
    make_package(&mut fs, &dir);
    match from_path(&dir, &fs).unwrap().unwrap() {
        CargoTomlManager::Package(manager) => (dir, manager),
        _ => unreachable!(),
    }
}

fn find(dir: &str, fs: &FakeFs) -> Option<String> {
    let mut search = ManifestSearch::new(dir);
    loop {
        let candidate = search.candidate();
        match search.next(fs.files.contains_key(&candidate)) {
            SearchStep::Found(p) => return Some(p),
            SearchStep::Continue(s) => search = s,
            SearchStep::NotFound => return None,
        }
    }
}

#[test]
fn find_cargo_toml() {
    let mut fs = FakeFs::default();
    make_package(&mut fs, "/tmp/cot-test-a");
    let found_path = find("/tmp/cot-test-a", &fs).unwrap();
    assert_eq!(found_path, "/tmp/cot-test-a/Cargo.toml");
}

#[test]
fn find_cargo_toml_recursive() {
    let mut fs = FakeFs::default();
    make_package(&mut fs, "/tmp/cot-test-b/nested");
    let found_path = find("/tmp/cot-test-b/nested", &fs).unwrap();
    assert_eq!(found_path, "/tmp/cot-test-b/nested/Cargo.toml");
}

#[test]
fn find_cargo_toml_not_found() {
    let fs = FakeFs::default();
    let found_path = find("/tmp/cot-test-c", &fs);
    assert!(found_path.is_none());
}

#[test]
fn find_cargo_toml_in_an_ancestor() {
    let mut fs = FakeFs::default();
    make_package(&mut fs, "/tmp/cot-test-d");
    let found_path = find("/tmp/cot-test-d/src/bin", &fs).unwrap();
    assert_eq!(found_path, "/tmp/cot-test-d/Cargo.toml");
}

#[test]
fn load_valid_virtual_workspace_manifest() {
    let mut fs = FakeFs::default();
    fs.add("/src/cot/Cargo.toml", Some(workspace(&["cot", "cot-cli", "cot-macros"])));
    fs.add("/src/cot/cot/Cargo.toml", Some(package("cot")));
    fs.add("/src/cot/cot-cli/Cargo.toml", Some(package("cot-cli")));
    fs.add("/src/cot/cot-macros/Cargo.toml", Some(package("cot-macros")));
    let manager = from_path("/src/cot", &fs).unwrap().unwrap();
    match manager {
        CargoTomlManager::Workspace(manager) => {
            assert!(manager.get_root_manifest().workspace.is_some());
            assert!(!manager.get_packages().is_empty());
        }
        _ => panic!("Expected workspace manifest"),
    }
}

#[test]
fn load_valid_workspace_from_package_manifest() {
    let dir = "/tmp/cot-test-e";
    let cargo_toml_path = format!("{dir}/Cargo.toml");
    let mut fs = FakeFs::default();
    let mut manifest = package("cot-test-e");
    manifest.workspace = Some(WorkspaceInfo { members: vec![] });
    fs.add(&cargo_toml_path, Some(manifest));

    let manager = from_path(dir, &fs).unwrap().unwrap();
    match manager {
        CargoTomlManager::Workspace(manager) => {
            assert!(manager.get_root_manifest().workspace.is_some());
            assert_eq!(manager.get_packages().len(), 1);
            assert_eq!(manager.get_packages()[0].get_manifest_path(), cargo_toml_path);
        }
        _ => panic!("Expected workspace manifest"),
    }
}

#[test]
fn root_package_is_added_to_members() {
    let dir = "/tmp/cot-test-f";
    let mut fs = FakeFs::default();
    let mut manifest = package("root-pkg");
    manifest.workspace = Some(WorkspaceInfo { members: vec!["member".to_string()] });
    fs.add(&format!("{dir}/Cargo.toml"), Some(manifest));
    fs.add(&format!("{dir}/member/Cargo.toml"), Some(package("member-pkg")));

    let CargoTomlManager::Workspace(manager) = from_path(dir, &fs).unwrap().unwrap() else {
        panic!("Expected workspace manifest");
    };
    assert_eq!(manager.get_package_names(), vec!["member-pkg", "root-pkg"]);
    assert_eq!(
        manager.get_root_manifest().workspace.as_ref().unwrap().members,
        vec!["member".to_string(), "root-pkg".to_string()]
    );
    let root = manager.get_package_manager("root-pkg").unwrap();
    assert_eq!(root.get_package_path(), dir);
    assert_eq!(root.get_manifest(), manager.get_root_manifest());
}

#[test]
fn root_package_named_like_a_member_path_is_not_added() {
    let dir = "/tmp/cot-test-g";
    let mut fs = FakeFs::default();
    let mut manifest = package("member");
    manifest.workspace = Some(WorkspaceInfo { members: vec!["member".to_string()] });
    fs.add(&format!("{dir}/Cargo.toml"), Some(manifest));
    fs.add(&format!("{dir}/member/Cargo.toml"), Some(package("other")));

    let CargoTomlManager::Workspace(manager) = from_path(dir, &fs).unwrap().unwrap() else {
        panic!("Expected workspace manifest");
    };
    assert_eq!(manager.get_package_names(), vec!["other"]);
    assert_eq!(manager.get_root_manifest().workspace.as_ref().unwrap().members.len(), 1);
}

#[test]
fn later_member_of_the_same_name_wins() {
    let dir = "/tmp/cot-test-h";
    let mut fs = FakeFs::default();
    fs.add(&format!("{dir}/Cargo.toml"), Some(workspace(&["one", "two"])));
    fs.add(&format!("{dir}/one/Cargo.toml"), Some(package("same")));
    fs.add(&format!("{dir}/two/Cargo.toml"), Some(package("same")));

    let CargoTomlManager::Workspace(manager) = from_path(dir, &fs).unwrap().unwrap() else {
        panic!("Expected workspace manifest");
    };
    assert_eq!(manager.get_packages().len(), 1);
    assert_eq!(manager.get_package_manager("same").unwrap().get_package_path(), format!("{dir}/two"));
}

#[test]
fn load_valid_package_manifest() {
    let dir = "/tmp/cot-test-i";
    let package_name = "cot-test-i";
    let mut fs = FakeFs::default();
    make_package(&mut fs, dir);

    let manager = from_path(dir, &fs).unwrap().unwrap();
    match manager {
        CargoTomlManager::Package(manager) => {
            assert_eq!(manager.get_package_name(), package_name);
            assert_eq!(manager.get_package_path(), dir);
        }
        _ => panic!("Expected package manifest"),
    }
}

#[test]
fn package_finds_the_workspace_above_it() {
    let mut fs = FakeFs::default();
    fs.add("/src/ws/Cargo.toml", Some(workspace(&["crates/a"])));
    fs.add("/src/ws/crates/a/Cargo.toml", Some(package("a")));

    let manager = load(Loader::from_cargo_toml_path("/src/ws/crates/a/Cargo.toml"), &fs)
        .unwrap()
        .unwrap();
    let CargoTomlManager::Workspace(manager) = manager else {
        panic!("Expected workspace manifest");
    };
    assert_eq!(manager.get_workspace_root(), "/src/ws");
    assert_eq!(manager.get_package_paths(), vec!["/src/ws/crates/a"]);
}

#[test]
fn package_with_a_workspace_key_reads_that_workspace() {
    let mut fs = FakeFs::default();
    let mut manifest = package("p");
    manifest.package.as_mut().unwrap().workspace = Some("/elsewhere/ws".to_string());
    fs.add("/src/p/Cargo.toml", Some(manifest));
    fs.add("/elsewhere/ws/Cargo.toml", Some(workspace(&["q"])));
    fs.add("/elsewhere/ws/q/Cargo.toml", Some(package("q")));

    let CargoTomlManager::Workspace(manager) =
        load(Loader::from_cargo_toml_path("/src/p/Cargo.toml"), &fs).unwrap().unwrap()
    else {
        panic!("Expected workspace manifest");
    };
    assert_eq!(manager.get_workspace_root(), "/elsewhere/ws");
    assert_eq!(manager.get_package_names(), vec!["q"]);
}

#[test]
fn package_with_an_unreadable_workspace_stays_a_package() {
    let mut fs = FakeFs::default();
    let mut manifest = package("p");
    manifest.package.as_mut().unwrap().workspace = Some("/missing".to_string());
    fs.add("/src/p/Cargo.toml", Some(manifest));

    let CargoTomlManager::Package(manager) =
        load(Loader::from_cargo_toml_path("/src/p/Cargo.toml"), &fs).unwrap().unwrap()
    else {
        panic!("Expected package manifest");
    };
    assert_eq!(manager.get_package_path(), "/src/p");
}

#[test]
fn unreadable_manifest_is_an_error() {
    let fs = FakeFs::default();
    let result = load(Loader::from_cargo_toml_path("/nowhere/Cargo.toml"), &fs);
    assert_eq!(result.unwrap_err(), LoadError::UnreadableManifest);
    assert_eq!(LoadError::UnreadableManifest.message(), "unable to read Cargo.toml");
}

#[test]
fn manifest_without_package_or_workspace_is_an_error() {
    let mut fs = FakeFs::default();
    fs.add("/x/Cargo.toml", Some(ManifestInfo { package: None, workspace: None }));
    let result = load(Loader::from_cargo_toml_path("/x/Cargo.toml"), &fs);
    assert_eq!(result.unwrap_err(), LoadError::NotWorkspaceOrPackage);
    assert_eq!(
        LoadError::NotWorkspaceOrPackage.message(),
        "Cargo.toml is not a valid workspace or package manifest"
    );
}

#[test]
fn no_manifest_above_a_directory_loads_nothing() {
    let fs = FakeFs::default();
    assert!(from_path("/tmp/cot-test-empty", &fs).unwrap().is_none());
}

#[test]
fn unreadable_member_manifest_aborts() {
    let mut fs = FakeFs::default();
    fs.add("/w/Cargo.toml", Some(workspace(&["m"])));
    fs.add("/w/m/Cargo.toml", None);
    match drive(Loader::from_path("/w"), &fs) {
        Ending::Abort(f) => {
            assert_eq!(f, Fault::InvalidMemberManifest);
            assert_eq!(f.message(), "member manifest should be valid");
        }
        Ending::Done(_) => panic!("expected an abort"),
    }
}

#[test]
fn member_without_package_aborts() {
    let mut fs = FakeFs::default();
    fs.add("/w/Cargo.toml", Some(workspace(&["m"])));
    fs.add("/w/m/Cargo.toml", Some(workspace(&[])));
    match drive(Loader::from_path("/w"), &fs) {
        Ending::Abort(f) => assert_eq!(f, Fault::MemberWithoutPackage),
        Ending::Done(_) => panic!("expected an abort"),
    }
}

#[test]
fn package_above_a_package_aborts() {
    let mut fs = FakeFs::default();
    fs.add("/outer/Cargo.toml", Some(package("outer")));
    fs.add("/outer/inner/Cargo.toml", Some(package("inner")));
    match drive(Loader::from_path("/outer/inner"), &fs) {
        Ending::Abort(f) => {
            assert_eq!(f, Fault::NotAWorkspace);
            assert_eq!(f.message(), "assertion failed: manifest.workspace.is_some()");
        }
        Ending::Done(_) => panic!("expected an abort"),
    }
}

#[test]
fn manifest_without_parent_aborts() {
    let mut fs = FakeFs::default();
    fs.add("/", Some(package("p")));
    match drive(Loader::from_cargo_toml_path("/"), &fs) {
        Ending::Abort(f) => {
            assert_eq!(f, Fault::ManifestWithoutParent);
            assert_eq!(f.message(), "Cargo.toml should always have a parent");
        }
        Ending::Done(_) => panic!("expected an abort"),
    }
}

#[test]
fn package_exists() {
    let mut fs = FakeFs::default();
    make_workspace_package(&mut fs, "/tmp/cot-test-j", 1);
    let manager = from_path("/tmp/cot-test-j", &fs).unwrap().unwrap();

    assert!(manager.package_exists(&nth_crate_name(1)));
    assert!(!manager.package_exists("non-existent"));
}

#[test]
fn package_exists_in_a_single_package() {
    let mut fs = FakeFs::default();
    make_package(&mut fs, "/tmp/cot-test-k");
    let manager = from_path("/tmp/cot-test-k", &fs).unwrap().unwrap();

    assert!(manager.package_exists("cot-test-k"));
    assert!(!manager.package_exists("non-existent"));
    assert_eq!(manager.get_package_manager("cot-test-k").unwrap().get_package_name(), "cot-test-k");
    assert!(manager.get_package_manager("non-existent").is_none());
}

#[test]
fn get_package_manager() {
    let mut fs = FakeFs::default();
    make_workspace_package(&mut fs, "/tmp/cot-test-l", 1);
    let manager = from_path("/tmp/cot-test-l", &fs).unwrap().unwrap();

    let first_package = nth_crate_name(1);
    let package = manager.get_package_manager(first_package.as_str());
    assert!(package.is_some());
    assert_eq!(
        package.unwrap().get_manifest().package.as_ref().unwrap().name,
        first_package.as_str()
    );

    let package = manager.get_package_manager("non-existent");
    assert!(package.is_none());
}

#[test]
fn get_packages() {
    let (_, manager) = get_workspace(2);

    assert_eq!(manager.get_packages().len(), 2);
}

#[test]
fn get_package_names() {
    let (_, manager) = get_workspace(2);

    let mut packages = manager.get_package_names();
    packages.sort();

    assert_eq!(packages.len(), 2);
    assert_eq!(packages[0], nth_crate_name(1));
    assert_eq!(packages[1], nth_crate_name(2));
}

#[test]
fn get_package_paths() {
    let (dir, manager) = get_workspace(2);

    let mut packages = manager.get_package_paths();
    packages.sort();

    assert_eq!(packages.len(), 2);
    assert_eq!(packages[0], format!("{dir}/{}", nth_crate_name(1)));
    assert_eq!(packages[1], format!("{dir}/{}", nth_crate_name(2)));
}

#[test]
fn get_root_manifest() {
    let (_, manager) = get_workspace(1);

    let manifest = manager.get_root_manifest();

    assert_eq!(*manifest, workspace(&[nth_crate_name(1).as_str()]));
}

#[test]
fn test_get_package_manager_by_path() {
    let (dir, manager) = get_workspace(1);
    let package_name = nth_crate_name(1);
    let package_path = format!("{dir}/{package_name}");

    let package = manager.get_package_manager_by_path(&package_path, false);
    assert!(package.is_some());
    assert_eq!(package.unwrap().get_manifest().package.as_ref().unwrap().name, package_name);

    let manifest_path = format!("{package_path}/Cargo.toml");
    let package = manager.get_package_manager_by_path(&manifest_path, true);
    assert!(package.is_some());
    assert_eq!(package.unwrap().get_manifest().package.as_ref().unwrap().name, package_name);

    let non_existent = format!("{dir}/non-existent/Cargo.toml");
    let package = manager.get_package_manager_by_path(&non_existent, false);
    assert!(package.is_none());
}

#[test]
fn lookup_by_path_compares_paths_not_text() {
    let (dir, manager) = get_workspace(1);
    let package_name = nth_crate_name(1);
    let spelled_otherwise = format!("{dir}//{package_name}/");
    let package = manager.get_package_manager_by_path(&spelled_otherwise, false);
    assert_eq!(package.unwrap().get_package_name(), package_name);
    assert!(manager.lookup_package_by_path("/", true).is_none());
    assert!(manager.lookup_package_by_path(&spelled_otherwise, false).unwrap().is_some());
}

#[test]
fn get_workspace_root() {
    let (dir, manager) = get_workspace(1);

    assert_eq!(manager.get_workspace_root(), dir);
}

#[test]
fn get_package_name() {
    let (dir, manager) = get_package();
    let package_name = dir.rsplit('/').next().unwrap();

    assert_eq!(manager.get_package_name(), package_name);
}

#[test]
fn get_package_path() {
    let (dir, manager) = get_package();

    assert_eq!(manager.get_package_path(), dir);
}

#[test]
fn get_manifest_path() {
    let (dir, manager) = get_package();

    assert_eq!(manager.get_manifest_path(), format!("{dir}/Cargo.toml"));
}

#[test]
fn get_manifest() {
    let (dir, manager) = get_package();
    let orig_manifest = package(dir.rsplit('/').next().unwrap());

    assert_eq!(*manager.get_manifest(), orig_manifest);
}

#[test]
fn loading_from_a_directory_is_loading_from_its_manifest() {
    let mut fs = FakeFs::default();
    make_workspace_package(&mut fs, "/tmp/cot-test-m", 2);
    let from_dir = from_path("/tmp/cot-test-m/cot-test-crate-1/src", &fs).unwrap().unwrap();
    let from_manifest =
        load(Loader::from_cargo_toml_path("/tmp/cot-test-m/cot-test-crate-1/Cargo.toml"), &fs)
            .unwrap()
            .unwrap();
    let (CargoTomlManager::Workspace(a), CargoTomlManager::Workspace(b)) = (from_dir, from_manifest)
    else {
        panic!("Expected workspace manifests");
    };
    assert_eq!(a.get_workspace_root(), "/tmp/cot-test-m");
    assert_eq!(a.get_workspace_root(), b.get_workspace_root());
    assert_eq!(a.get_package_names(), b.get_package_names());
    assert_eq!(a.get_package_paths(), b.get_package_paths());
}
