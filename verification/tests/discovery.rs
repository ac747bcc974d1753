use nix_autobuild::commit::{CommitInfo, ListError};
use nix_autobuild::json::{manifest_of, parse_manifest};
use nix_autobuild::manifest::{get_text, Manifest};
use nix_autobuild::package::{NixosConfigPackage, Package, PackageEnum};
use nix_autobuild::status::{CommitBuildStatus, PackageBuildStatus};
use nix_autobuild::tool::ToolOutput;

fn commit_abc() -> CommitInfo {
    CommitInfo {
        hash: "abc".to_string(),
        message: "m".to_string(),
        flake_url: "git+https://h/r?rev=abc".to_string(),
        status: CommitBuildStatus::Idle,
        packages: Vec::new(),
        unix_secs: 0,
    }
}

fn entries_of(text: &str) -> Vec<(String, Manifest)> {
    match parse_manifest(text).expect("valid JSON") {
        Manifest::Object(entries) => entries,
        _ => panic!("not an object"),
    }
}

fn enumerate(text: &str) -> Vec<PackageEnum> {
    let mut out = Vec::new();
    CommitInfo::_parse_pkgs_value(&entries_of(text), String::new(), &commit_abc(), &mut out);
    out
}

fn kind_and_path(t: &PackageEnum) -> (bool, String) {
    match t {
        PackageEnum::Derivation(p) => (true, p.path.clone()),
        PackageEnum::NixosConfig(c) => (false, c.path.clone()),
    }
}

fn listing(stdout: &str) -> ToolOutput {
    ToolOutput { code: Some(0), stdout: stdout.as_bytes().to_vec(), stderr: Vec::new() }
}

#[test]
fn derivation_classification() {
    let out = enumerate(
        r#"{"packages": {"x86_64-linux": {"hello": {"description":"d","name":"hello","type":"derivation"}}}}"#,
    );
    assert_eq!(out.len(), 1);
    match &out[0] {
        PackageEnum::Derivation(p) => {
            assert_eq!(p.path, "packages.x86_64-linux.hello");
            assert_eq!(p.arch, "x86_64-linux");
            assert_eq!(p.name, "hello");
            assert_eq!(p.description, "d");
            assert_eq!(p.pkg_type, "derivation");
            assert_eq!(p.flake_url, "git+https://h/r?rev=abc#packages.x86_64-linux.hello");
            assert!(matches!(p.status, PackageBuildStatus::Idle));
        }
        _ => panic!("expected a derivation"),
    }
}

#[test]
fn system_config_rewrite() {
    let out = enumerate(r#"{"nixosConfigurations":{"host":{"type":"nixos-configuration"}}}"#);
    assert_eq!(out.len(), 1);
    match &out[0] {
        PackageEnum::NixosConfig(c) => {
            assert_eq!(c.path, "nixosConfigurations.host.config.system.build.toplevel");
            assert_eq!(c.pkg_type, "nixos-configuration");
            assert_eq!(
                c.flake_url,
                "git+https://h/r?rev=abc#nixosConfigurations.host.config.system.build.toplevel"
            );
            assert!(matches!(c.status, PackageBuildStatus::Idle));
        }
        _ => panic!("expected a system configuration"),
    }
}

#[test]
fn unknown_arch_derivation() {
    let out = enumerate(
        r#"{"packages": {"wasm32-linux": {"hello": {"description":"d","name":"hello","type":"derivation"}}}}"#,
    );
    assert_eq!(out.len(), 1);
    match &out[0] {
        PackageEnum::Derivation(p) => {
            assert_eq!(p.path, "packages.wasm32-linux.hello");
            assert_eq!(p.arch, "unknown");
        }
        _ => panic!("expected a derivation"),
    }
}

#[test]
fn empty_tree_has_no_targets() {
    assert_eq!(enumerate("{}").len(), 0);
}

#[test]
fn arrays_and_scalars_are_ignored() {
    let out = enumerate(
        r#"{"a": [ {"description":"d","name":"n","type":"t"} ], "b": 3, "c": "text", "d": null, "e": true,
            "f": {"g": {"description":"d","name":"n","type":"derivation"}}}"#,
    );
    assert_eq!(out.len(), 1);
    assert_eq!(kind_and_path(&out[0]), (true, "f.g".to_string()));
}

#[test]
fn derivation_takes_precedence_over_system_config() {
    let out = enumerate(
        r#"{"nixosConfigurations":{"host":{"type":"nixos-configuration","name":"n","description":"d"}}}"#,
    );
    assert_eq!(out.len(), 1);
    match &out[0] {
        PackageEnum::Derivation(p) => {
            assert_eq!(p.path, "nixosConfigurations.host");
            assert_eq!(p.pkg_type, "nixos-configuration");
            assert_eq!(p.arch, "unknown");
        }
        _ => panic!("expected a derivation"),
    }
}

#[test]
fn recursion_stops_at_a_target() {
    let out = enumerate(
        r#"{"packages": {"x86_64-linux": {"a": {"description":"d","name":"a","type":"derivation",
            "inner": {"description":"d","name":"b","type":"derivation"}}}}}"#,
    );
    assert_eq!(out.len(), 1);
    assert_eq!(kind_and_path(&out[0]), (true, "packages.x86_64-linux.a".to_string()));
}

#[test]
fn system_config_needs_root_and_type() {
    // the right type under another root is no system configuration
    assert_eq!(enumerate(r#"{"other":{"host":{"type":"nixos-configuration"}}}"#).len(), 0);
    // the right root with another type is none either
    assert_eq!(enumerate(r#"{"nixosConfigurations":{"host":{"type":"other"}}}"#).len(), 0);
    // a type that is not a text
    assert_eq!(enumerate(r#"{"nixosConfigurations":{"host":{"type":1}}}"#).len(), 0);
}

#[test]
fn derivation_needs_three_texts() {
    assert_eq!(enumerate(r#"{"p":{"description":"d","name":"n"}}"#).len(), 0);
    assert_eq!(enumerate(r#"{"p":{"description":"d","name":"n","type":5}}"#).len(), 0);
    assert_eq!(enumerate(r#"{"p":{"description":"d","name":"n","type":"t"}}"#).len(), 1);
}

#[test]
fn root_can_be_a_target() {
    let out = enumerate(r#"{"description":"d","name":"n","type":"t"}"#);
    assert_eq!(out.len(), 1);
    match &out[0] {
        PackageEnum::Derivation(p) => {
            assert_eq!(p.path, "");
            assert_eq!(p.flake_url, "git+https://h/r?rev=abc#");
            assert_eq!(p.arch, "unknown");
        }
        _ => panic!("expected a derivation"),
    }
}

#[test]
fn targets_come_in_key_order_depth_first() {
    let out = enumerate(
        r#"{"a": {"x": {"description":"d","name":"n","type":"t"},
                   "y": {"z": {"description":"d","name":"n","type":"t"}}},
            "b": {"description":"d","name":"n","type":"t"},
            "nixosConfigurations": {"h1": {"type":"nixos-configuration"}, "h2": {"type":"nixos-configuration"}}}"#,
    );
    let got: Vec<(bool, String)> = out.iter().map(kind_and_path).collect();
    assert_eq!(
        got,
        vec![
            (true, "a.x".to_string()),
            (true, "a.y.z".to_string()),
            (true, "b".to_string()),
            (false, "nixosConfigurations.h1.config.system.build.toplevel".to_string()),
            (false, "nixosConfigurations.h2.config.system.build.toplevel".to_string()),
        ]
    );
}

#[test]
fn every_target_url_is_commit_url_hash_path() {
    let out = enumerate(
        r#"{"packages": {"x86_64-linux": {"a": {"description":"d","name":"a","type":"derivation"},
                                            "b": {"description":"d","name":"b","type":"derivation"}}},
            "nixosConfigurations": {"h": {"type":"nixos-configuration"}}}"#,
    );
    assert_eq!(out.len(), 3);
    for t in &out {
        assert_eq!(t.flake_url(), &format!("git+https://h/r?rev=abc#{}", t.path()));
    }
}

#[test]
fn paths_are_distinct() {
    let out = enumerate(
        r#"{"packages": {"x86_64-linux": {"a": {"description":"d","name":"a","type":"derivation"},
                                            "b": {"description":"d","name":"b","type":"derivation"}},
                         "aarch64-linux": {"a": {"description":"d","name":"a","type":"derivation"}}},
            "nixosConfigurations": {"h": {"type":"nixos-configuration"}}}"#,
    );
    assert_eq!(out.len(), 4);
    for i in 0..out.len() {
        for j in (i + 1)..out.len() {
            assert_ne!(out[i].path(), out[j].path());
        }
    }
}

#[test]
fn discovery_twice_gives_the_same_list() {
    let text = r#"{"b": {"description":"d","name":"n","type":"t"},
                   "a": {"c": {"description":"d","name":"n","type":"t"}},
                   "nixosConfigurations": {"h": {"type":"nixos-configuration"}}}"#;
    let first: Vec<(bool, String)> = enumerate(text).iter().map(kind_and_path).collect();
    let second: Vec<(bool, String)> = enumerate(text).iter().map(kind_and_path).collect();
    assert_eq!(first.len(), 3);
    assert_eq!(first, second);
}

#[test]
fn from_map_of_each_kind() {
    let entries = entries_of(r#"{"description":"d","name":"n","type":"t"}"#);
    let commit = commit_abc();
    let p = Package::from_map(&entries, "legacyPackages.aarch64-darwin.x".to_string(), &commit)
        .expect("a package");
    assert_eq!(p.arch, "aarch64-darwin");
    assert_eq!(p.flake_url, "git+https://h/r?rev=abc#legacyPackages.aarch64-darwin.x");
    assert!(NixosConfigPackage::from_map(&entries, "nixosConfigurations.x".to_string(), &commit)
        .is_none());
    let entries = entries_of(r#"{"type":"nixos-configuration"}"#);
    assert!(Package::from_map(&entries, "nixosConfigurations.x".to_string(), &commit).is_none());
    let c = NixosConfigPackage::from_map(&entries, "nixosConfigurations.x".to_string(), &commit)
        .expect("a system configuration");
    assert_eq!(c.path, "nixosConfigurations.x.config.system.build.toplevel");
    assert!(NixosConfigPackage::from_map(&entries, "packages.x".to_string(), &commit).is_none());
}

#[test]
fn get_text_reads_texts_only() {
    let entries = entries_of(r#"{"a":"x","b":1,"c":{"d":"y"}}"#);
    assert_eq!(get_text(&entries, "a"), Some(&"x".to_string()));
    assert_eq!(get_text(&entries, "b"), None);
    assert_eq!(get_text(&entries, "c"), None);
    assert_eq!(get_text(&entries, "missing"), None);
}

#[test]
fn parse_manifest_copies_the_value() {
    match parse_manifest(r#"{"k": {"s": "text", "n": 1, "l": [1, 2], "o": {}}}"#) {
        Some(Manifest::Object(entries)) => {
            assert_eq!(entries.len(), 1);
            assert_eq!(entries[0].0, "k");
            match &entries[0].1 {
                Manifest::Object(inner) => {
                    let keys: Vec<&str> = inner.iter().map(|e| e.0.as_str()).collect();
                    assert_eq!(keys.len(), 4);
                    for (key, value) in inner {
                        match key.as_str() {
                            "s" => assert!(matches!(value, Manifest::Text(t) if t == "text")),
                            "n" | "l" => assert!(matches!(value, Manifest::Other)),
                            "o" => assert!(matches!(value, Manifest::Object(e) if e.is_empty())),
                            _ => panic!("unexpected key"),
                        }
                    }
                }
                _ => panic!("expected an object"),
            }
        }
        _ => panic!("expected an object"),
    }
    assert!(matches!(parse_manifest(r#""just text""#), Some(Manifest::Text(t)) if t == "just text"));
    assert!(matches!(parse_manifest("17"), Some(Manifest::Other)));
    assert!(parse_manifest("{not json").is_none());
    assert!(parse_manifest("").is_none());
}

#[test]
fn manifest_of_follows_the_value() {
    let value: serde_json::Value = serde_json::from_str(r#"{"a": {"b": "c"}}"#).unwrap();
    match manifest_of(&value) {
        Manifest::Object(entries) => {
            assert_eq!(entries[0].0, "a");
            match &entries[0].1 {
                Manifest::Object(inner) => {
                    assert_eq!(inner[0].0, "b");
                    assert!(matches!(&inner[0].1, Manifest::Text(t) if t == "c"));
                }
                _ => panic!("expected an object"),
            }
        }
        _ => panic!("expected an object"),
    }
}

#[test]
fn get_pkgs_list_reads_a_listing() {
    let commit = commit_abc();
    let out = listing(
        r#"{"packages": {"x86_64-linux": {"hello": {"description":"d","name":"hello","type":"derivation"}}}}"#,
    );
    let pkgs = commit.get_pkgs_list(&out).expect("a listing");
    assert_eq!(pkgs.len(), 1);
    assert_eq!(pkgs[0].path(), "packages.x86_64-linux.hello");
    assert_eq!(pkgs[0].flake_url(), "git+https://h/r?rev=abc#packages.x86_64-linux.hello");
}

#[test]
fn get_pkgs_list_errors() {
    let commit = commit_abc();
    let failed = ToolOutput { code: Some(1), stdout: b"{}".to_vec(), stderr: b"boom".to_vec() };
    assert_eq!(commit.get_pkgs_list(&failed).err(), Some(ListError::ToolFailed));
    let killed = ToolOutput { code: None, stdout: b"{}".to_vec(), stderr: Vec::new() };
    assert_eq!(commit.get_pkgs_list(&killed).err(), Some(ListError::ToolFailed));
    let not_text = ToolOutput { code: Some(0), stdout: vec![0xff, 0xfe], stderr: Vec::new() };
    assert_eq!(commit.get_pkgs_list(&not_text).err(), Some(ListError::NotUtf8));
    assert_eq!(commit.get_pkgs_list(&listing("{oops")).err(), Some(ListError::InvalidJson));
    assert_eq!(commit.get_pkgs_list(&listing("[1, 2]")).err(), Some(ListError::NoObject));
    assert_eq!(commit.get_pkgs_list(&listing("\"text\"")).err(), Some(ListError::NoObject));
    assert_eq!(commit.get_pkgs_list(&listing("{}")).map(|p| p.len()).ok(), Some(0));
}

#[test]
fn list_error_messages() {
    assert_eq!(ListError::ToolFailed.message(), "Failed to list packages in flake");
    assert_eq!(ListError::NoObject.message(), "No packages found in flake");
    assert_eq!(ListError::NotUtf8.message(), "Package list is not valid UTF-8");
    assert_eq!(ListError::InvalidJson.message(), "Package list is not valid JSON");
}

#[test]
fn commit_discovery_cycle() {
    let mut commit = commit_abc();
    let command = commit.build();
    assert_eq!(commit.status, CommitBuildStatus::GettingPackages);
    assert_eq!(
        command,
        vec!["flake", "show", "--json", "--all-systems", "git+https://h/r?rev=abc"]
    );
    let out = listing(
        r#"{"packages": {"x86_64-linux": {"a": {"description":"d","name":"a","type":"derivation"}},
                         "aarch64-linux": {"a": {"description":"d","name":"a","type":"derivation"}}},
            "nixosConfigurations": {"h": {"type":"nixos-configuration"}}}"#,
    );
    let listed = commit.get_pkgs_list(&out);
    let queued = commit.install(listed, &vec!["x86_64-linux".to_string()]);
    assert_eq!(commit.status, CommitBuildStatus::Idle);
    assert_eq!(commit.packages.len(), 3);
    let mut waiting = Vec::new();
    for (i, t) in commit.packages.iter().enumerate() {
        match (t.path().as_str(), t.status()) {
            ("packages.x86_64-linux.a", PackageBuildStatus::WaitingForBuild) => waiting.push(i),
            ("packages.aarch64-linux.a", PackageBuildStatus::UnsupportedArchitecture(a)) => {
                assert_eq!(a, "aarch64-linux")
            }
            (
                "nixosConfigurations.h.config.system.build.toplevel",
                PackageBuildStatus::WaitingForBuild,
            ) => waiting.push(i),
            (path, status) => panic!("unexpected {path} {status:?}"),
        }
    }
    assert_eq!(queued, waiting);
    assert_eq!(queued.len(), 2);
}

#[test]
fn failed_discovery_installs_nothing() {
    let mut commit = commit_abc();
    commit.build();
    let failed = ToolOutput { code: Some(2), stdout: Vec::new(), stderr: b"no flake".to_vec() };
    let listed = commit.get_pkgs_list(&failed);
    let queued = commit.install(listed, &vec!["x86_64-linux".to_string()]);
    assert!(queued.is_empty());
    assert!(commit.packages.is_empty());
    assert_eq!(commit.status, CommitBuildStatus::Idle);
}

#[test]
fn keys_with_dots_or_without_text_can_share_a_path() {
    let out = enumerate(
        r#"{"a": {"b": {"description":"d","name":"n","type":"t"}},
            "a.b": {"description":"d","name":"n","type":"t"}}"#,
    );
    let got: Vec<(bool, String)> = out.iter().map(kind_and_path).collect();
    assert_eq!(got, vec![(true, "a.b".to_string()), (true, "a.b".to_string())]);
    let out = enumerate(
        r#"{"": {"x": {"description":"d","name":"n","type":"t"}},
            "x": {"description":"d","name":"n","type":"t"}}"#,
    );
    let got: Vec<(bool, String)> = out.iter().map(kind_and_path).collect();
    assert_eq!(got, vec![(true, "x".to_string()), (true, "x".to_string())]);
}

#[test]
fn long_text_is_read_in_one_pass() {
    let name = "n".repeat(200_000);
    let text = format!(r#"{{"p": {{"description":"d","name":"{name}","type":"t"}}}}"#);
    let out = enumerate(&text);
    match &out[0] {
        PackageEnum::Derivation(p) => assert_eq!(p.name.len(), 200_000),
        _ => panic!("expected a derivation"),
    }
    let big = ToolOutput { code: Some(1), stdout: Vec::new(), stderr: vec![b'e'; 300_000] };
    assert_eq!(big.stderr_text().len(), 300_000);
}

#[test]
fn targets_follow_the_order_of_the_keys_as_given() {
    let out = enumerate(
        r#"{"z": {"description":"d","name":"n","type":"t"},
            "m": {"y": {"description":"d","name":"n","type":"t"},
                  "b": {"description":"d","name":"n","type":"t"}},
            "a": {"description":"d","name":"n","type":"t"}}"#,
    );
    let got: Vec<String> = out.iter().map(|t| t.path().clone()).collect();
    assert_eq!(got, vec!["z", "m.y", "m.b", "a"]);
}

#[test]
fn a_key_given_twice_is_kept_once() {
    let entries = entries_of(r#"{"a": "first", "b": "x", "a": "second"}"#);
    let keys: Vec<&str> = entries.iter().map(|e| e.0.as_str()).collect();
    assert_eq!(keys, vec!["a", "b"]);
    assert_eq!(get_text(&entries, "a"), Some(&"second".to_string()));
}
