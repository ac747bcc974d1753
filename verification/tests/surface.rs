use nix_autobuild::config::{pool_size_on, ConfigError};
use nix_autobuild::http::{directory_listing, static_file_path, store_path};
use nix_autobuild::props::Props;
use nix_autobuild::repo::{AutoBuildOptions, Repo};
use nix_autobuild::serialize::{
    ArcWrapper, RwLockHashMapArc, RwLockHashSetArcWrapper, RwLockVecArcWrapper, RwLockWrapper,
    VecArcWrapper,
};
use nix_autobuild::status::{CommitBuildStatus, RepoStatus};
use std::collections::{HashMap, HashSet};
use std::sync::{Arc, RwLock};

fn options(supported: &[&str], n_build_threads: usize) -> AutoBuildOptions {
    AutoBuildOptions {
        repos: vec![Repo {
            url: "h/r".to_string(),
            poll_interval_sec: 300,
            branches: vec!["main".to_string()],
            build_depth: 1,
            credentials_file: None,
        }],
        dir: "/var/lib/nix_autobuild".to_string(),
        supported_architectures: supported.iter().map(|s| s.to_string()).collect(),
        host: "127.0.0.1".to_string(),
        port: 8080,
        n_build_threads,
    }
}

#[test]
fn configuration_with_known_architectures_is_accepted() {
    assert!(options(&["x86_64-linux", "aarch64-linux"], 0).validate().is_ok());
    assert!(options(&[], 0).validate().is_ok());
}

#[test]
fn unknown_architecture_is_refused() {
    match options(&["x86_64-linux", "wasm32-linux", "also-bad"], 0).validate() {
        Err(e) => {
            assert_eq!(e.message(), "Unsupported architecture in settings: wasm32-linux");
            assert!(matches!(e, ConfigError::UnknownArchitecture(name) if name == "wasm32-linux"));
        }
        other => panic!("unexpected {other:?}"),
    }
    assert!(matches!(
        options(&["unknown"], 0).validate(),
        Err(ConfigError::UnknownArchitecture(n)) if n == "unknown"
    ));
}

#[test]
fn pool_size() {
    assert_eq!(pool_size_on(4, 16), 4);
    assert_eq!(pool_size_on(0, 16), 16);
    assert_eq!(pool_size_on(1, 0), 1);
    assert_eq!(options(&[], 3).build_pool_size(), 3);
    assert!(options(&[], 0).build_pool_size() >= 1);
    assert_eq!(options(&[], 0).build_pool_size(), num_cpus::get());
}

#[test]
fn status_defaults() {
    assert_eq!(format!("{:?}", RepoStatus::Idle), "Idle");
    assert_eq!(format!("{:?}", CommitBuildStatus::GettingPackages), "GettingPackages");
    assert_ne!(RepoStatus::Idle, RepoStatus::Polling);
}

#[test]
fn selection_levels() {
    let none = Props::default();
    assert_eq!(none.query(), "");
    let repo = none.with_repo_name("h/r".to_string());
    assert_eq!(repo.query(), "repo=h/r");
    let pkg = repo.with_package("packages.*.hello".to_string());
    let branch = pkg.with_branch("main".to_string());
    let commit = branch.with_commit("abc".to_string());
    let arch = commit.with_arch("x86_64-linux".to_string());
    assert_eq!(
        arch.query(),
        "repo=h/r&package=packages.*.hello&branch=main&commit=abc&arch=x86_64-linux"
    );
    assert_eq!(arch.clear_arch().query(), "repo=h/r&package=packages.*.hello&branch=main&commit=abc");
    assert_eq!(arch.clear_from_commit().query(), "repo=h/r&package=packages.*.hello&branch=main");
    assert_eq!(arch.clear_from_branch().query(), "repo=h/r&package=packages.*.hello");
    assert_eq!(arch.clear_from_package().query(), "repo=h/r");
    // selecting at one level clears the levels below
    assert_eq!(arch.with_branch("dev".to_string()).query(), "repo=h/r&package=packages.*.hello&branch=dev");
    assert_eq!(arch.with_package("p".to_string()).query(), "repo=h/r&package=p");
    assert_eq!(arch.with_commit("d".to_string()).query(), "repo=h/r&package=packages.*.hello&branch=main&commit=d");
    assert_eq!(arch.with_repo_name("x".to_string()).query(), "repo=x");
    assert_eq!(arch.with_arch("a".to_string()).arch.as_deref(), Some("a"));
}

#[test]
fn selection_url() {
    let p = Props::default().with_repo_name("h/r".to_string()).with_package("p".to_string());
    assert_eq!(p.get_url("https:", "example.org:8080", "/"), "https://example.org:8080/?repo=h/r&package=p");
    assert_eq!(Props::default().get_url("http:", "localhost", "/index.html"), "http://localhost/index.html?");
    let only_arch = Props {
        repo_name: None,
        package_name: None,
        branch: None,
        commit_hash: None,
        arch: Some("a".to_string()),
    };
    assert_eq!(only_arch.query(), "arch=a");
}

#[test]
fn served_paths() {
    assert_eq!(static_file_path("/srv/dist", ""), "/srv/dist/index.html");
    assert_eq!(static_file_path("/srv/dist", "app.js"), "/srv/dist/app.js");
    assert_eq!(store_path("/abc-hello/bin"), "/nix/store/abc-hello/bin");
    assert_eq!(store_path(""), "/nix/store");
}

#[test]
fn listing_of_a_directory() {
    assert_eq!(
        directory_listing("/nix/store/x", &Vec::new()),
        "<html><body><h1>Directory listing</h1><ul></ul></body></html>"
    );
    assert_eq!(
        directory_listing("/nix/store/x", &vec![("bin".to_string(), true), ("README".to_string(), false)]),
        "<html><body><h1>Directory listing</h1><ul>\
         <li><a href=\"/nix/store/x/bin/\">bin/</a></li>\
         <li><a href=\"/nix/store/x/README\">README</a></li>\
         </ul></body></html>"
    );
}

#[test]
fn shared_handles() {
    let node = Arc::new(5u32);
    let a = ArcWrapper::new(node.clone());
    assert!(Arc::ptr_eq(a.inner(), &node));
    assert!(Arc::ptr_eq(a.clone().inner(), &node));
    let v = VecArcWrapper::new(vec![node.clone(), Arc::new(6)]);
    assert_eq!(v.inner().len(), 2);
    assert!(Arc::ptr_eq(&v.inner()[0], &node));
    assert!(VecArcWrapper::<u32>::default().inner().is_empty());
    let l = RwLockWrapper::new("x".to_string());
    assert_eq!(*l.inner().read().unwrap(), "x");
    *l.inner().write().unwrap() = "y".to_string();
    assert_eq!(*l.inner().read().unwrap(), "y");
    let made = RwLock::new(7u32);
    *made.write().unwrap() = 8;
    let kept = RwLockWrapper::from(made);
    assert_eq!(*kept.inner().read().unwrap(), 8);
    let s = RwLockHashSetArcWrapper::new(RwLock::new(HashSet::from([node.clone()])));
    assert!(s.inner().read().unwrap().contains(&node));
    let lv = RwLockVecArcWrapper::new(RwLock::new(vec![node.clone()]));
    assert_eq!(lv.inner().read().unwrap().len(), 1);
    let m = RwLockHashMapArc::new(RwLock::new(HashMap::from([("k".to_string(), node.clone())])));
    assert!(Arc::ptr_eq(&m.inner().read().unwrap()["k"], &node));
}
