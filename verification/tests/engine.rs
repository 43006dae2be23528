use std::collections::{BTreeMap, BTreeSet};

use typven::error::Error;
use typven::host::{Reply, Request, Step};
use typven::install::{
    cross_check, install_all_versions, packages, Installed, Outcome, Policy, Record,
};
use typven::manifest::Manifest;
use typven::package::{is_package, search, validate, Package};
use typven::util::{clean, settle, CleanReport, Failure};
use typven::version::Version;

const STORE: &str = "/data/typst/packages/local";
const REGISTRY: &str = "/data/typst/manifest.toml";

/// A file system in memory that serves the requests of the engines.
#[derive(Debug, Clone, PartialEq, Eq, Default)]
struct Disk {
    dirs: BTreeSet<String>,
    files: BTreeMap<String, String>,
    /// Source files that cannot be read: a copy stops at the first of them.
    unreadable: BTreeSet<String>,
    /// Directories that cannot be removed.
    locked: BTreeSet<String>,
    /// Directories that cannot be created.
    denied: BTreeSet<String>,
    /// Every request that was served, in order.
    log: Vec<Request>,
}

fn below(path: &str, dir: &str) -> bool {
    path == dir || (path.starts_with(dir) && path[dir.len()..].starts_with('/'))
}

impl Disk {
    fn dir(&mut self, path: &str) {
        for (at, c) in path.char_indices() {
            if c == '/' && at > 0 {
                self.dirs.insert(path[..at].to_string());
            }
        }
        if !path.is_empty() {
            self.dirs.insert(path.to_string());
        }
    }

    fn file(&mut self, path: &str, text: &str) {
        if let Some((parent, _)) = path.rsplit_once('/') {
            if !parent.is_empty() {
                self.dir(parent);
            }
        }
        self.files.insert(path.to_string(), text.to_string());
    }

    fn package(&mut self, dir: &str, name: &str, version: &str) {
        let text = format!(
            "[package]\nname = \"{name}\"\nversion = \"{version}\"\nentrypoint = \"main.typ\"\n"
        );
        self.file(&format!("{dir}/typst.toml"), &text);
        self.file(&format!("{dir}/main.typ"), "#let x = 1\n");
    }

    fn holds(&self, path: &str) -> bool {
        self.dirs.contains(path) || self.files.contains_key(path)
    }

    fn contents(&self) -> (BTreeSet<String>, BTreeMap<String, String>) {
        (self.dirs.clone(), self.files.clone())
    }

    fn perform(&mut self, request: &Request) -> Reply {
        self.log.push(request.clone());
        match request {
            Request::ReadText { path } => Reply::Text(self.files.get(path).cloned()),
            Request::IsFile { path } => Reply::Flag(self.files.contains_key(path)),
            Request::Exists { path } => Reply::Flag(self.holds(path)),
            Request::ListDirs { path } => {
                let prefix = format!("{path}/");
                Reply::Names(
                    self.dirs
                        .iter()
                        .filter_map(|dir| dir.strip_prefix(&prefix))
                        .filter(|rest| !rest.is_empty() && !rest.contains('/'))
                        .map(|rest| rest.to_string())
                        .collect(),
                )
            }
            Request::CreateDirAll { path } => {
                if self.denied.contains(path) {
                    return Reply::Done(Some(format!("cannot create {path}")));
                }
                self.dir(path);
                Reply::Done(None)
            }
            Request::CopyTree { from, to, skip_exist } => {
                let sources: Vec<(String, String)> = self
                    .files
                    .iter()
                    .filter(|(path, _)| below(path, from) && path.as_str() != from)
                    .map(|(path, text)| (path.clone(), text.clone()))
                    .collect();
                let dirs: Vec<String> = self
                    .dirs
                    .iter()
                    .filter(|path| below(path, from) && path.as_str() != from)
                    .cloned()
                    .collect();
                for dir in dirs {
                    self.dir(&format!("{to}{}", &dir[from.len()..]));
                }
                for (path, text) in sources {
                    if self.unreadable.contains(&path) {
                        return Reply::Done(Some(format!("cannot read {path}")));
                    }
                    let target = format!("{to}{}", &path[from.len()..]);
                    if *skip_exist && self.files.contains_key(&target) {
                        continue;
                    }
                    self.file(&target, &text);
                }
                Reply::Done(None)
            }
            Request::RemoveDirAll { path } => {
                if !self.dirs.contains(path) {
                    return Reply::Done(Some(format!("{path} does not exist")));
                }
                if self.locked.contains(path) {
                    return Reply::Done(Some(format!("{path} is locked")));
                }
                self.dirs.retain(|dir| !below(dir, path));
                self.files.retain(|file, _| !below(file, path));
                Reply::Done(None)
            }
        }
    }
}

/// Runs an operation to its end on `disk`.
fn run<M, T>(disk: &mut Disk, start: (M, Request), resume: impl Fn(M, Reply) -> Step<M, T>) -> T {
    let (mut state, mut request) = start;
    loop {
        let reply = disk.perform(&request);
        match resume(state, reply) {
            Step::Ask(next, asked) => {
                state = next;
                request = asked;
            }
            Step::Done(result) => return result,
        }
    }
}

fn run_step<M, T>(disk: &mut Disk, start: Step<M, T>, resume: impl Fn(M, Reply) -> Step<M, T>) -> T {
    match start {
        Step::Ask(state, request) => run(disk, (state, request), resume),
        Step::Done(result) => result,
    }
}

fn probe(disk: &mut Disk, dir: &str) -> Option<Package> {
    run(disk, is_package(dir), |state, reply| state.resume(reply))
}

fn find(disk: &mut Disk, root: &str) -> Vec<Package> {
    run(disk, search(root), |state, reply| state.resume(reply))
}

fn install(disk: &mut Disk, package: Package, policy: Policy) -> Result<Installed, Error> {
    run(disk, typven::install::install(STORE, package, policy), |state, reply| state.resume(reply))
}

fn install_from(disk: &mut Disk, path: &str) -> Result<Vec<Record>, Error> {
    run(disk, packages(STORE, path), |state, reply| state.resume(reply))
}

fn install_all(disk: &mut Disk, manifest: &Manifest, name: &str) -> Result<Vec<Outcome>, Error> {
    run_step(disk, install_all_versions(manifest, STORE, name), |state, reply| state.resume(reply))
}

fn sweep(disk: &mut Disk, name: Option<&str>, version: Option<&str>) -> Result<CleanReport, Error> {
    let version = version.map(|text| Version::parse(text).expect("a version"));
    run_step(disk, clean(STORE, name.map(str::to_string), version), |state, reply| {
        state.resume(reply)
    })
}

fn acme(dir: &str, version: &str) -> Package {
    Package {
        path: dir.to_string(),
        name: "acme".to_string(),
        version: Version::parse(version).expect("a version"),
        entrypoint: "main.typ".to_string(),
    }
}

fn copies(disk: &Disk) -> usize {
    disk.log.iter().filter(|request| matches!(request, Request::CopyTree { .. })).count()
}

fn changes(disk: &Disk) -> usize {
    disk.log
        .iter()
        .filter(|request| {
            matches!(
                request,
                Request::CopyTree { .. } | Request::CreateDirAll { .. } | Request::RemoveDirAll { .. }
            )
        })
        .count()
}

#[test]
fn is_package_finds_the_package_of_a_valid_descriptor() {
    let mut disk = Disk::default();
    disk.file(
        "pkgs/acme/typst.toml",
        "[package]\nname = \"acme\"\nversion = \"1.2.0-rc.1\"\nentrypoint = \"src/lib.typ\"\n",
    );
    disk.file("pkgs/acme/src/lib.typ", "");
    let found = probe(&mut disk, "pkgs/acme").expect("a package");
    assert_eq!(found.path, "pkgs/acme");
    assert_eq!(found.name, "acme");
    assert_eq!(found.version, Version::parse("1.2.0-rc.1").expect("a version"));
    assert_eq!(found.entrypoint, "src/lib.typ");
    assert_eq!(
        disk.log,
        vec![
            Request::ReadText { path: "pkgs/acme/typst.toml".to_string() },
            Request::IsFile { path: "pkgs/acme/src/lib.typ".to_string() },
        ]
    );
}

#[test]
fn is_package_finds_nothing_without_a_descriptor() {
    let mut disk = Disk::default();
    disk.file("pkgs/acme/main.typ", "");
    assert_eq!(probe(&mut disk, "pkgs/acme"), None);
    assert_eq!(probe(&mut disk, "pkgs/nowhere"), None);
    assert_eq!(disk.log.len(), 2);
}

#[test]
fn is_package_finds_nothing_with_a_descriptor_that_is_not_valid() {
    let mut disk = Disk::default();
    disk.file("pkgs/acme/typst.toml", "[package]\nname = \"acme\"\n");
    disk.file("pkgs/acme/main.typ", "");
    disk.file("pkgs/bad/typst.toml", "not a document");
    assert_eq!(probe(&mut disk, "pkgs/acme"), None);
    assert_eq!(probe(&mut disk, "pkgs/bad"), None);
}

#[test]
fn is_package_finds_nothing_without_the_entrypoint() {
    let mut disk = Disk::default();
    disk.package("pkgs/acme", "acme", "1.2.0");
    disk.files.remove("pkgs/acme/main.typ");
    disk.dir("pkgs/acme/main.typ");
    assert_eq!(probe(&mut disk, "pkgs/acme"), None);
}

#[test]
fn is_package_takes_an_answer_of_the_wrong_kind_for_no() {
    let (state, _) = is_package("pkgs/acme");
    assert!(matches!(state.resume(Reply::Flag(true)), Step::Done(None)));
    let (state, _) = is_package("pkgs/acme");
    let text = "[package]\nname = \"acme\"\nversion = \"1.2.0\"\nentrypoint = \"main.typ\"\n";
    let state = match state.resume(Reply::Text(Some(text.to_string()))) {
        Step::Ask(state, request) => {
            assert_eq!(request, Request::IsFile { path: "pkgs/acme/main.typ".to_string() });
            state
        }
        Step::Done(_) => panic!("the entrypoint has to be looked for"),
    };
    assert!(matches!(state.resume(Reply::Done(None)), Step::Done(None)));
}

#[test]
fn search_finds_packages_one_and_two_levels_below() {
    let mut disk = Disk::default();
    disk.package("root", "top", "1.0.0");
    disk.package("root/a", "a", "1.0.0");
    disk.package("root/b/one", "b", "1.0.0");
    disk.package("root/b/two", "b", "2.0.0");
    disk.package("root/c/d/deep", "deep", "1.0.0");
    disk.dir("root/empty");
    let found = find(&mut disk, "root");
    let paths: Vec<&str> = found.iter().map(|package| package.path.as_str()).collect();
    assert_eq!(paths, vec!["root/a", "root/b/one", "root/b/two"]);
    assert_eq!(found[2].version, Version::new(2, 0, 0));
}

#[test]
fn search_never_looks_deeper_than_two_levels() {
    let mut disk = Disk::default();
    disk.package("root/c/d/deep", "deep", "1.0.0");
    assert_eq!(find(&mut disk, "root"), vec![]);
    for request in &disk.log {
        let path = match request {
            Request::ListDirs { path } | Request::ReadText { path } | Request::IsFile { path } => path,
            other => panic!("a search asked {other:?}"),
        };
        assert!(!path.starts_with("root/c/d/deep"), "a search looked at {path}");
        assert_ne!(path, "root/typst.toml");
    }
    assert!(disk.log.contains(&Request::ListDirs { path: "root".to_string() }));
    assert!(disk.log.contains(&Request::ListDirs { path: "root/c".to_string() }));
    assert!(!disk.log.contains(&Request::ListDirs { path: "root/c/d".to_string() }));
}

#[test]
fn search_meets_each_directory_before_what_it_holds() {
    let mut disk = Disk::default();
    disk.package("root/a", "a", "1.0.0");
    disk.package("root/a/inner", "inner", "1.0.0");
    disk.package("root/b", "b", "1.0.0");
    let found = find(&mut disk, "root");
    let paths: Vec<&str> = found.iter().map(|package| package.path.as_str()).collect();
    assert_eq!(paths, vec!["root/a", "root/a/inner", "root/b"]);
}

#[test]
fn search_of_nothing_finds_nothing() {
    let mut disk = Disk::default();
    assert_eq!(find(&mut disk, "nowhere"), vec![]);
    assert_eq!(disk.log, vec![Request::ListDirs { path: "nowhere".to_string() }]);
}

#[test]
fn search_skips_names_that_are_no_component() {
    let (state, _) = search("root");
    let names = vec!["a/b".to_string(), String::new(), "ok".to_string()];
    match state.resume(Reply::Names(names)) {
        Step::Ask(_, request) => {
            assert_eq!(request, Request::ReadText { path: "root/ok/typst.toml".to_string() })
        }
        Step::Done(_) => panic!("one directory has to be tested"),
    }
}

#[test]
fn install_creates_the_version_directory_with_the_files() {
    let mut disk = Disk::default();
    disk.package("./acme-pkg", "acme", "1.2.0");
    disk.file("./acme-pkg/src/util.typ", "#let y = 2\n");
    let package = probe(&mut disk, "./acme-pkg").expect("a package");
    disk.log.clear();
    assert_eq!(install(&mut disk, package, Policy::SkipExisting), Ok(Installed::Copied));
    assert_eq!(
        disk.files.get("/data/typst/packages/local/acme/1.2.0/main.typ"),
        Some(&"#let x = 1\n".to_string())
    );
    assert_eq!(
        disk.files.get("/data/typst/packages/local/acme/1.2.0/src/util.typ"),
        Some(&"#let y = 2\n".to_string())
    );
    assert!(disk.files.contains_key("/data/typst/packages/local/acme/1.2.0/typst.toml"));
    assert_eq!(
        disk.log,
        vec![
            Request::Exists { path: "/data/typst/packages/local/acme/1.2.0".to_string() },
            Request::CreateDirAll { path: "/data/typst/packages/local/acme/1.2.0".to_string() },
            Request::CopyTree {
                from: "./acme-pkg".to_string(),
                to: "/data/typst/packages/local/acme/1.2.0".to_string(),
                skip_exist: true,
            },
        ]
    );
}

#[test]
fn install_twice_copies_once() {
    let mut disk = Disk::default();
    disk.package("./acme-pkg", "acme", "1.2.0");
    assert_eq!(
        install(&mut disk, acme("./acme-pkg", "1.2.0"), Policy::SkipExisting),
        Ok(Installed::Copied)
    );
    let after_first = disk.contents();
    disk.log.clear();
    assert_eq!(
        install(&mut disk, acme("./acme-pkg", "1.2.0"), Policy::SkipExisting),
        Ok(Installed::AlreadyPresent)
    );
    assert_eq!(disk.contents(), after_first);
    assert_eq!(
        disk.log,
        vec![Request::Exists { path: "/data/typst/packages/local/acme/1.2.0".to_string() }]
    );
}

#[test]
fn install_skips_a_version_that_exists_even_if_the_source_changed() {
    let mut disk = Disk::default();
    disk.package("src", "acme", "1.2.0");
    install(&mut disk, acme("src", "1.2.0"), Policy::SkipExisting).expect("installed");
    disk.file("src/main.typ", "#let x = 2\n");
    assert_eq!(
        install(&mut disk, acme("src", "1.2.0"), Policy::SkipExisting),
        Ok(Installed::AlreadyPresent)
    );
    assert_eq!(disk.files[&format!("{STORE}/acme/1.2.0/main.typ")], "#let x = 1\n");
}

#[test]
fn install_overwrites_on_request() {
    let mut disk = Disk::default();
    disk.package("src", "acme", "1.2.0");
    install(&mut disk, acme("src", "1.2.0"), Policy::SkipExisting).expect("installed");
    disk.file("src/main.typ", "#let x = 2\n");
    disk.log.clear();
    assert_eq!(install(&mut disk, acme("src", "1.2.0"), Policy::Overwrite), Ok(Installed::Copied));
    assert_eq!(disk.files[&format!("{STORE}/acme/1.2.0/main.typ")], "#let x = 2\n");
    assert_eq!(
        disk.log.last(),
        Some(&Request::CopyTree {
            from: "src".to_string(),
            to: format!("{STORE}/acme/1.2.0"),
            skip_exist: false,
        })
    );
}

#[test]
fn install_that_fails_to_copy_leaves_no_destination() {
    let mut disk = Disk::default();
    disk.package("src", "acme", "1.2.0");
    disk.file("src/z-last.typ", "");
    disk.unreadable.insert("src/typst.toml".to_string());
    let result = install(&mut disk, acme("src", "1.2.0"), Policy::SkipExisting);
    assert_eq!(
        result,
        Err(Error::IoFailure {
            path: format!("{STORE}/acme/1.2.0"),
            message: "cannot read src/typst.toml".to_string(),
        })
    );
    assert!(!disk.holds(&format!("{STORE}/acme/1.2.0")));
    assert!(!disk.holds(&format!("{STORE}/acme/1.2.0/main.typ")));
    assert!(disk.files.keys().all(|path| !path.starts_with(STORE)));
    assert_eq!(
        disk.log.last(),
        Some(&Request::RemoveDirAll { path: format!("{STORE}/acme/1.2.0") })
    );
    assert!(disk.files.contains_key("src/main.typ"));
}

#[test]
fn install_that_fails_to_create_reports_the_failure() {
    let mut disk = Disk::default();
    disk.package("src", "acme", "1.2.0");
    disk.denied.insert(format!("{STORE}/acme/1.2.0"));
    let result = install(&mut disk, acme("src", "1.2.0"), Policy::SkipExisting);
    match result {
        Err(Error::IoFailure { path, .. }) => assert_eq!(path, format!("{STORE}/acme/1.2.0")),
        other => panic!("the installation ended with {other:?}"),
    }
    assert_eq!(copies(&disk), 0);
    assert!(!disk.holds(&format!("{STORE}/acme/1.2.0")));
}

#[test]
fn install_reports_what_failed_first_where_the_cleanup_fails_too() {
    let mut disk = Disk::default();
    disk.package("src", "acme", "1.2.0");
    disk.unreadable.insert("src/typst.toml".to_string());
    disk.locked.insert(format!("{STORE}/acme/1.2.0"));
    assert_eq!(
        install(&mut disk, acme("src", "1.2.0"), Policy::SkipExisting),
        Err(Error::IoFailure {
            path: format!("{STORE}/acme/1.2.0"),
            message: "cannot read src/typst.toml".to_string(),
        })
    );
    assert_eq!(
        disk.log.last(),
        Some(&Request::RemoveDirAll { path: format!("{STORE}/acme/1.2.0") })
    );
}

#[test]
fn install_takes_an_answer_of_the_wrong_kind_for_a_failure() {
    let (state, _) = typven::install::install(STORE, acme("src", "1.2.0"), Policy::SkipExisting);
    match state.resume(Reply::Names(vec![])) {
        Step::Done(Err(Error::IoFailure { path, message })) => {
            assert_eq!(path, format!("{STORE}/acme/1.2.0"));
            assert_eq!(message, "unexpected reply");
        }
        other => panic!("the installation went on with {other:?}"),
    }
    let (state, _) = typven::install::install(STORE, acme("src", "1.2.0"), Policy::SkipExisting);
    let state = match state.resume(Reply::Flag(false)) {
        Step::Ask(state, _) => state,
        other => panic!("the installation went on with {other:?}"),
    };
    match state.resume(Reply::Flag(true)) {
        Step::Ask(_, request) => {
            assert_eq!(request, Request::RemoveDirAll { path: format!("{STORE}/acme/1.2.0") })
        }
        other => panic!("the installation went on with {other:?}"),
    }
}

#[test]
fn packages_installs_the_package_at_the_path() {
    let mut disk = Disk::default();
    disk.package("work", "top", "0.1.0");
    disk.package("work/sub", "sub", "0.1.0");
    let report = install_from(&mut disk, "work").expect("installed");
    assert_eq!(report.len(), 1);
    assert_eq!(report[0].package.label(), "top:0.1.0");
    assert_eq!(report[0].outcome, Installed::Copied);
    assert!(disk.files.contains_key(&format!("{STORE}/top/0.1.0/main.typ")));
    assert!(!disk.holds(&format!("{STORE}/sub")));
}

#[test]
fn packages_installs_what_lies_below_the_path() {
    let mut disk = Disk::default();
    disk.package("work/a", "a", "1.0.0");
    disk.package("work/group/b", "b", "2.0.0");
    disk.package(&format!("{STORE}/a/1.0.0"), "a", "1.0.0");
    let report = install_from(&mut disk, "work").expect("installed");
    let lines: Vec<(String, Installed)> =
        report.iter().map(|record| (record.package.label(), record.outcome)).collect();
    assert_eq!(
        lines,
        vec![
            ("a:1.0.0".to_string(), Installed::AlreadyPresent),
            ("b:2.0.0".to_string(), Installed::Copied),
        ]
    );
    assert!(disk.files.contains_key(&format!("{STORE}/b/2.0.0/main.typ")));
}

#[test]
fn packages_fails_where_there_is_no_package() {
    let mut disk = Disk::default();
    disk.file("work/readme.md", "");
    disk.dir("work/empty");
    assert_eq!(
        install_from(&mut disk, "work"),
        Err(Error::NotFound { path: "work".to_string() })
    );
    assert_eq!(changes(&disk), 0);
}

#[test]
fn packages_stops_at_the_first_failure() {
    let mut disk = Disk::default();
    disk.package("work/a", "a", "1.0.0");
    disk.package("work/b", "b", "1.0.0");
    disk.package("work/c", "c", "1.0.0");
    disk.unreadable.insert("work/b/main.typ".to_string());
    let result = install_from(&mut disk, "work");
    assert_eq!(
        result.map(|report| report.len()),
        Err(Error::IoFailure {
            path: format!("{STORE}/b/1.0.0"),
            message: "cannot read work/b/main.typ".to_string(),
        })
    );
    assert!(disk.holds(&format!("{STORE}/a/1.0.0")));
    assert!(!disk.holds(&format!("{STORE}/b/1.0.0")));
    assert!(!disk.holds(&format!("{STORE}/c")));
}

fn registry_with(name: &str, source: &str) -> Manifest {
    let (mut manifest, _) = Manifest::get_or_create(REGISTRY, None);
    manifest.register(name, source).expect("registered");
    manifest
}

#[test]
fn install_all_versions_installs_each_version_directory() {
    let mut disk = Disk::default();
    disk.package("src/acme/1.0.0", "acme", "1.0.0");
    disk.package("src/acme/1.2.0", "acme", "1.2.0");
    disk.dir("src/acme/docs");
    let manifest = registry_with("acme", "src/acme");
    let outcomes = install_all(&mut disk, &manifest, "acme").expect("installed");
    let lines: Vec<(String, Result<Installed, Error>)> =
        outcomes.into_iter().map(|outcome| (outcome.version.to_text(), outcome.result)).collect();
    assert_eq!(
        lines,
        vec![
            ("1.0.0".to_string(), Ok(Installed::Copied)),
            ("1.2.0".to_string(), Ok(Installed::Copied)),
        ]
    );
    assert!(disk.files.contains_key(&format!("{STORE}/acme/1.0.0/main.typ")));
    assert!(disk.files.contains_key(&format!("{STORE}/acme/1.2.0/main.typ")));
    assert!(!disk.log.contains(&Request::ReadText { path: "src/acme/docs/typst.toml".to_string() }));
}

#[test]
fn install_all_versions_refreshes_what_the_store_holds() {
    let mut disk = Disk::default();
    disk.package("src/acme/1.0.0", "acme", "1.0.0");
    disk.file(&format!("{STORE}/acme/1.0.0/main.typ"), "stale");
    let manifest = registry_with("acme", "src/acme");
    let outcomes = install_all(&mut disk, &manifest, "acme").expect("installed");
    assert_eq!(outcomes[0].result, Ok(Installed::Copied));
    assert_eq!(disk.files[&format!("{STORE}/acme/1.0.0/main.typ")], "#let x = 1\n");
}

#[test]
fn install_all_versions_rejects_a_directory_that_lies_about_its_version() {
    let mut disk = Disk::default();
    disk.package("src/acme/1.0.0", "acme", "1.0.0");
    disk.package("src/acme/2.0.0", "acme", "1.9.0");
    let manifest = registry_with("acme", "src/acme");
    let outcomes = install_all(&mut disk, &manifest, "acme").expect("one version is installed");
    assert_eq!(outcomes.len(), 2);
    assert_eq!(outcomes[0].result, Ok(Installed::Copied));
    assert_eq!(outcomes[1].version, Version::new(2, 0, 0));
    assert_eq!(
        outcomes[1].result,
        Err(Error::NameVersionMismatch { path: "src/acme/2.0.0".to_string() })
    );
    assert_eq!(copies(&disk), 1);
    assert!(!disk.holds(&format!("{STORE}/acme/2.0.0")));
    assert!(!disk.holds(&format!("{STORE}/acme/1.9.0")));
}

#[test]
fn install_all_versions_rejects_a_directory_that_lies_about_its_name() {
    let mut disk = Disk::default();
    disk.package("src/acme/1.0.0", "other", "1.0.0");
    let manifest = registry_with("acme", "src/acme");
    assert_eq!(
        install_all(&mut disk, &manifest, "acme").map(|outcomes| outcomes.len()),
        Err(Error::NameVersionMismatch { path: "src/acme/1.0.0".to_string() })
    );
    assert_eq!(changes(&disk), 0);
}

#[test]
fn install_all_versions_goes_on_after_a_version_that_fails() {
    let mut disk = Disk::default();
    disk.file("src/acme/0.1.0/typst.toml", "broken [");
    disk.dir("src/acme/0.2.0");
    disk.package("src/acme/0.3.0", "acme", "0.3.0");
    disk.files.remove("src/acme/0.3.0/main.typ");
    disk.package("src/acme/0.4.0", "acme", "0.4.0");
    disk.unreadable.insert("src/acme/0.4.0/main.typ".to_string());
    disk.package("src/acme/0.5.0", "acme", "0.5.0");
    let manifest = registry_with("acme", "src/acme");
    let outcomes = install_all(&mut disk, &manifest, "acme").expect("one version is installed");
    let results: Vec<Result<Installed, Error>> =
        outcomes.into_iter().map(|outcome| outcome.result).collect();
    assert_eq!(
        results,
        vec![
            Err(Error::MalformedDescriptor),
            Err(Error::IoFailure {
                path: "src/acme/0.2.0/typst.toml".to_string(),
                message: "descriptor cannot be read".to_string(),
            }),
            Err(Error::EntrypointMissing { path: "src/acme/0.3.0/main.typ".to_string() }),
            Err(Error::IoFailure {
                path: format!("{STORE}/acme/0.4.0"),
                message: "cannot read src/acme/0.4.0/main.typ".to_string(),
            }),
            Ok(Installed::Copied),
        ]
    );
    assert!(!disk.holds(&format!("{STORE}/acme/0.4.0")));
    assert!(disk.holds(&format!("{STORE}/acme/0.5.0/main.typ")));
}

#[test]
fn install_all_versions_fails_with_the_first_failure_where_every_version_fails() {
    let mut disk = Disk::default();
    disk.package("src/acme/1.0.0", "acme", "1.0.1");
    disk.file("src/acme/2.0.0/typst.toml", "[package]\nname = \"acme\"\n");
    let manifest = registry_with("acme", "src/acme");
    assert_eq!(
        install_all(&mut disk, &manifest, "acme").map(|outcomes| outcomes.len()),
        Err(Error::NameVersionMismatch { path: "src/acme/1.0.0".to_string() })
    );
}

#[test]
fn install_all_versions_fails_for_a_name_that_is_not_registered() {
    let mut disk = Disk::default();
    let manifest = registry_with("acme", "src/acme");
    assert_eq!(
        install_all(&mut disk, &manifest, "ghost").map(|outcomes| outcomes.len()),
        Err(Error::UnknownPackage { name: "ghost".to_string() })
    );
    assert!(disk.log.is_empty());
}

#[test]
fn install_all_versions_fails_where_the_source_holds_no_version() {
    let mut disk = Disk::default();
    disk.dir("src/acme/docs");
    let manifest = registry_with("acme", "src/acme");
    assert_eq!(
        install_all(&mut disk, &manifest, "acme").map(|outcomes| outcomes.len()),
        Err(Error::NotFound { path: "src/acme".to_string() })
    );
}

#[test]
fn cross_check_compares_name_and_version() {
    let text = "[package]\nname = \"acme\"\nversion = \"1.9.0\"\nentrypoint = \"main.typ\"\n";
    let descriptor = validate(text).expect("a descriptor");
    assert_eq!(cross_check("acme", &Version::new(1, 9, 0), "src/1.9.0", &descriptor), Ok(()));
    assert_eq!(
        cross_check("acme", &Version::new(2, 0, 0), "src/2.0.0", &descriptor),
        Err(Error::NameVersionMismatch { path: "src/2.0.0".to_string() })
    );
    assert_eq!(
        cross_check("acne", &Version::new(1, 9, 0), "src/1.9.0", &descriptor),
        Err(Error::NameVersionMismatch { path: "src/1.9.0".to_string() })
    );
    assert_eq!(
        cross_check(
            "acme",
            &Version::parse("1.9.0+build").expect("a version"),
            "src/x",
            &descriptor
        ),
        Err(Error::NameVersionMismatch { path: "src/x".to_string() })
    );
}

fn installed_store() -> Disk {
    let mut disk = Disk::default();
    disk.package("src/acme/1.0.0", "acme", "1.0.0");
    disk.package("src/acme/1.2.0", "acme", "1.2.0");
    disk.package("src/beta", "beta", "0.1.0");
    install(&mut disk, acme("src/acme/1.0.0", "1.0.0"), Policy::SkipExisting).expect("installed");
    install(&mut disk, acme("src/acme/1.2.0", "1.2.0"), Policy::SkipExisting).expect("installed");
    install_from(&mut disk, "src/beta").expect("installed");
    disk.log.clear();
    disk
}

#[test]
fn clean_of_a_name_removes_every_version_and_the_registration() {
    let mut disk = installed_store();
    let mut manifest = registry_with("acme", "src/acme");
    manifest.register("beta", "src/beta").expect("registered");
    let report = sweep(&mut disk, Some("acme"), None).expect("cleaned");
    assert_eq!(
        report.removed,
        vec![
            format!("{STORE}/acme/1.0.0"),
            format!("{STORE}/acme/1.2.0"),
            format!("{STORE}/acme"),
        ]
    );
    assert_eq!(report.failed, vec![]);
    assert_eq!(report.forget, Some("acme".to_string()));
    assert!(!disk.holds(&format!("{STORE}/acme/1.0.0")));
    assert!(!disk.holds(&format!("{STORE}/acme/1.2.0")));
    assert!(!disk.holds(&format!("{STORE}/acme")));
    assert!(disk.holds(&format!("{STORE}/beta/0.1.0/main.typ")));
    assert!(disk.holds("src/acme/1.0.0/main.typ"));
    let text = settle(&mut manifest, &report).expect("the registry has to be written");
    assert_eq!(manifest.package_path("acme"), Err(Error::UnknownPackage { name: "acme".into() }));
    assert_eq!(manifest.package_path("beta"), Ok("src/beta".to_string()));
    assert_eq!(text, manifest.text());
    assert!(!text.contains("acme"));
}

#[test]
fn clean_of_a_name_without_a_bundle_changes_nothing() {
    let mut disk = installed_store();
    let before = disk.contents();
    assert_eq!(
        sweep(&mut disk, Some("ghost"), None),
        Err(Error::NotFound { path: format!("{STORE}/ghost") })
    );
    assert_eq!(disk.contents(), before);
    assert_eq!(disk.log, vec![Request::Exists { path: format!("{STORE}/ghost") }]);
}

#[test]
fn clean_of_a_version_removes_that_version_alone() {
    let mut disk = installed_store();
    let mut manifest = registry_with("acme", "src/acme");
    let report = sweep(&mut disk, Some("acme"), Some("1.0.0")).expect("cleaned");
    assert_eq!(report.removed, vec![format!("{STORE}/acme/1.0.0")]);
    assert_eq!(report.forget, None);
    assert!(!disk.holds(&format!("{STORE}/acme/1.0.0")));
    assert!(disk.holds(&format!("{STORE}/acme/1.2.0/main.typ")));
    assert_eq!(settle(&mut manifest, &report), None);
    assert_eq!(manifest.package_path("acme"), Ok("src/acme".to_string()));
}

#[test]
fn clean_of_a_version_that_is_not_installed_fails() {
    let mut disk = installed_store();
    let before = disk.contents();
    assert_eq!(
        sweep(&mut disk, Some("acme"), Some("9.9.9")),
        Err(Error::NotFound { path: format!("{STORE}/acme/9.9.9") })
    );
    assert_eq!(disk.contents(), before);
    assert_eq!(changes(&disk), 0);
}

#[test]
fn clean_of_a_version_reports_what_cannot_be_removed() {
    let mut disk = installed_store();
    disk.locked.insert(format!("{STORE}/acme/1.0.0"));
    assert_eq!(
        sweep(&mut disk, Some("acme"), Some("1.0.0")),
        Err(Error::IoFailure {
            path: format!("{STORE}/acme/1.0.0"),
            message: format!("{STORE}/acme/1.0.0 is locked"),
        })
    );
}

#[test]
fn clean_of_everything_removes_every_bundle() {
    let mut disk = installed_store();
    disk.file(&format!("{STORE}/notes.txt"), "mine");
    let report = sweep(&mut disk, None, None).expect("cleaned");
    assert_eq!(report.removed, vec![format!("{STORE}/acme"), format!("{STORE}/beta")]);
    assert_eq!(report.forget, None);
    assert!(!disk.holds(&format!("{STORE}/acme")));
    assert!(!disk.holds(&format!("{STORE}/beta")));
    assert!(disk.holds(STORE));
    assert!(disk.holds(&format!("{STORE}/notes.txt")));
    assert!(disk.holds("src/beta/main.typ"));
}

#[test]
fn clean_of_everything_ignores_a_version_without_a_name() {
    let mut disk = installed_store();
    let report = sweep(&mut disk, None, Some("1.0.0")).expect("cleaned");
    assert_eq!(report.removed.len(), 2);
}

#[test]
fn clean_of_an_empty_store_fails() {
    let mut disk = Disk::default();
    disk.dir(STORE);
    assert_eq!(sweep(&mut disk, None, None), Err(Error::NothingToClean));
    let mut disk = Disk::default();
    assert_eq!(sweep(&mut disk, None, None), Err(Error::NothingToClean));
    assert_eq!(changes(&disk), 0);
}

#[test]
fn clean_goes_on_after_a_directory_that_cannot_be_removed() {
    let mut disk = installed_store();
    let mut manifest = registry_with("acme", "src/acme");
    disk.locked.insert(format!("{STORE}/acme/1.0.0"));
    let report = sweep(&mut disk, Some("acme"), None).expect("one version is removed");
    assert_eq!(report.removed, vec![format!("{STORE}/acme/1.2.0")]);
    assert_eq!(
        report.failed,
        vec![Failure {
            path: format!("{STORE}/acme/1.0.0"),
            message: format!("{STORE}/acme/1.0.0 is locked"),
        }]
    );
    assert_eq!(report.forget, None);
    assert!(disk.holds(&format!("{STORE}/acme/1.0.0/main.typ")));
    assert!(!disk.holds(&format!("{STORE}/acme/1.2.0")));
    assert_eq!(settle(&mut manifest, &report), None);
    assert_eq!(manifest.package_path("acme"), Ok("src/acme".to_string()));
}

#[test]
fn clean_fails_with_the_first_failure_where_nothing_is_removed() {
    let mut disk = installed_store();
    disk.locked.insert(format!("{STORE}/acme"));
    disk.locked.insert(format!("{STORE}/beta"));
    assert_eq!(
        sweep(&mut disk, None, None),
        Err(Error::IoFailure {
            path: format!("{STORE}/acme"),
            message: format!("{STORE}/acme is locked"),
        })
    );
    assert!(disk.holds(&format!("{STORE}/beta/0.1.0/main.typ")));
}

#[test]
fn clean_of_a_bundle_without_versions_removes_the_bundle() {
    let mut disk = Disk::default();
    disk.dir(&format!("{STORE}/acme"));
    let report = sweep(&mut disk, Some("acme"), None).expect("cleaned");
    assert_eq!(report.removed, vec![format!("{STORE}/acme")]);
    assert_eq!(report.forget, Some("acme".to_string()));
    assert!(!disk.holds(&format!("{STORE}/acme")));
}

#[test]
fn clean_of_a_name_that_names_no_package_asks_nothing() {
    let mut disk = installed_store();
    let before = disk.contents();
    for name in ["..", ".", "a/b", ""] {
        assert_eq!(
            sweep(&mut disk, Some(name), None),
            Err(Error::NotFound { path: format!("{STORE}/{name}") })
        );
        assert_eq!(
            sweep(&mut disk, Some(name), Some("1.0.0")),
            Err(Error::NotFound { path: format!("{STORE}/{name}/1.0.0") })
        );
    }
    assert!(disk.log.is_empty());
    assert_eq!(disk.contents(), before);
}

#[test]
fn search_takes_an_answer_of_the_wrong_kind_for_an_empty_listing() {
    let (state, _) = search("root");
    match state.resume(Reply::Flag(true)) {
        Step::Done(found) => assert_eq!(found, vec![]),
        other => panic!("the search went on with {other:?}"),
    }
}

#[test]
fn clean_takes_an_answer_of_the_wrong_kind_for_a_failure() {
    let state = match clean(STORE, Some("acme".to_string()), None) {
        Step::Ask(state, request) => {
            assert_eq!(request, Request::Exists { path: format!("{STORE}/acme") });
            state
        }
        other => panic!("the clean began with {other:?}"),
    };
    match state.resume(Reply::Text(None)) {
        Step::Done(Err(Error::IoFailure { path, message })) => {
            assert_eq!(path, format!("{STORE}/acme"));
            assert_eq!(message, "unexpected reply");
        }
        other => panic!("the clean went on with {other:?}"),
    }
    let state = match clean(STORE, Some("acme".to_string()), Some(Version::new(1, 0, 0))) {
        Step::Ask(state, _) => state,
        other => panic!("the clean began with {other:?}"),
    };
    let state = match state.resume(Reply::Flag(true)) {
        Step::Ask(state, request) => {
            assert_eq!(request, Request::RemoveDirAll { path: format!("{STORE}/acme/1.0.0") });
            state
        }
        other => panic!("the clean went on with {other:?}"),
    };
    assert_eq!(
        match state.resume(Reply::Flag(true)) {
            Step::Done(result) => result,
            other => panic!("the clean went on with {other:?}"),
        },
        Err(Error::IoFailure {
            path: format!("{STORE}/acme/1.0.0"),
            message: "unexpected reply".to_string(),
        })
    );
}

#[test]
fn install_all_versions_takes_a_listing_of_the_wrong_kind_for_empty() {
    let manifest = registry_with("acme", "src/acme");
    let state = match install_all_versions(&manifest, STORE, "acme") {
        Step::Ask(state, request) => {
            assert_eq!(request, Request::ListDirs { path: "src/acme".to_string() });
            state
        }
        other => panic!("the installation began with {other:?}"),
    };
    match state.resume(Reply::Done(None)) {
        Step::Done(result) => {
            assert_eq!(result, Err(Error::NotFound { path: "src/acme".to_string() }))
        }
        other => panic!("the installation went on with {other:?}"),
    }
}

#[test]
fn install_all_versions_installs_under_the_registered_name() {
    let mut disk = Disk::default();
    disk.package("elsewhere/versions/3.1.4", "acme", "3.1.4");
    let manifest = registry_with("acme", "elsewhere/versions");
    let outcomes = install_all(&mut disk, &manifest, "acme").expect("installed");
    assert_eq!(outcomes.len(), 1);
    assert!(disk.log.contains(&Request::CopyTree {
        from: "elsewhere/versions/3.1.4".to_string(),
        to: format!("{STORE}/acme/3.1.4"),
        skip_exist: false,
    }));
}

#[test]
fn packages_reports_every_package_that_it_installs() {
    let mut disk = Disk::default();
    disk.package("work/a", "a", "1.0.0");
    disk.package("work/b", "b", "1.0.0");
    disk.package("work/b/nested", "n", "0.0.1");
    let report = install_from(&mut disk, "work").expect("installed");
    let labels: Vec<String> = report.iter().map(|record| record.package.label()).collect();
    assert_eq!(labels, vec!["a:1.0.0", "b:1.0.0", "n:0.0.1"]);
    assert!(report.iter().all(|record| record.outcome == Installed::Copied));
    assert_eq!(copies(&disk), 3);
}
