use nix_autobuild::package::{
    build_static, is_supported, NixosConfigPackage, Package, PackageEnum,
};
use nix_autobuild::status::PackageBuildStatus;
use nix_autobuild::tool::{build_command, list_command, ToolOutput};

fn package(arch: &str) -> Package {
    Package {
        description: "d".to_string(),
        name: "hello".to_string(),
        pkg_type: "derivation".to_string(),
        path: format!("packages.{arch}.hello"),
        arch: arch.to_string(),
        flake_url: format!("git+https://h/r?rev=abc#packages.{arch}.hello"),
        status: PackageBuildStatus::Idle,
    }
}

fn system_config() -> NixosConfigPackage {
    NixosConfigPackage {
        path: "nixosConfigurations.h.config.system.build.toplevel".to_string(),
        pkg_type: "nixos-configuration".to_string(),
        flake_url: "git+https://h/r?rev=abc#nixosConfigurations.h.config.system.build.toplevel"
            .to_string(),
        status: PackageBuildStatus::Idle,
    }
}

fn supported() -> Vec<String> {
    vec!["x86_64-linux".to_string()]
}

fn ok(stdout: &str) -> ToolOutput {
    ToolOutput { code: Some(0), stdout: stdout.as_bytes().to_vec(), stderr: b"warning".to_vec() }
}

fn failed(stderr: &str) -> ToolOutput {
    ToolOutput { code: Some(1), stdout: b"ignored".to_vec(), stderr: stderr.as_bytes().to_vec() }
}

#[test]
fn commands_of_the_tool() {
    assert_eq!(
        build_command("git+https://h/r?rev=abc#p"),
        vec!["build", "--no-link", "--print-out-paths", "git+https://h/r?rev=abc#p"]
    );
    assert_eq!(
        list_command("git+https://h/r?rev=abc"),
        vec!["flake", "show", "--json", "--all-systems", "git+https://h/r?rev=abc"]
    );
}

#[test]
fn build_static_reads_the_exit_code() {
    assert_eq!(build_static(&ok("  /nix/store/abc-hello\n")), Ok("/nix/store/abc-hello".to_string()));
    assert_eq!(build_static(&failed("\n error: boom \n")), Err("error: boom".to_string()));
    let killed = ToolOutput { code: None, stdout: b"/nix/store/x".to_vec(), stderr: b" killed ".to_vec() };
    assert_eq!(build_static(&killed), Err("killed".to_string()));
    let other = ToolOutput { code: Some(-1), stdout: Vec::new(), stderr: Vec::new() };
    assert_eq!(build_static(&other), Err(String::new()));
}

#[test]
fn output_text_is_lossy_and_trimmed() {
    let out = ToolOutput {
        code: Some(1),
        stdout: vec![b' ', b'a', 0xff, b'b', b'\n'],
        stderr: vec![b'\t', 0xc3, 0xa9, b' '],
    };
    assert!(!out.succeeded());
    assert_eq!(out.stdout_text(), "a\u{fffd}b");
    assert_eq!(out.stderr_text(), "\u{e9}");
    assert!(ToolOutput { code: Some(0), stdout: Vec::new(), stderr: Vec::new() }.succeeded());
}

#[test]
fn supported_package_goes_through_the_pool() {
    let mut t = PackageEnum::Derivation(package("x86_64-linux"));
    // nothing happens before the build is asked for
    assert!(!t.start());
    assert!(matches!(t.status(), PackageBuildStatus::Idle));
    assert!(t.build(&supported()));
    assert!(matches!(t.status(), PackageBuildStatus::WaitingForBuild));
    // asking twice queues once
    assert!(!t.build(&supported()));
    assert!(!t.finish(Ok("early".to_string())));
    assert!(matches!(t.status(), PackageBuildStatus::WaitingForBuild));
    assert!(t.start());
    assert!(matches!(t.status(), PackageBuildStatus::Building));
    assert!(!t.start());
    assert!(t.finish(build_static(&ok("/nix/store/abc-hello\n"))));
    assert!(matches!(t.status(), PackageBuildStatus::Success(p) if p == "/nix/store/abc-hello"));
    assert!(t.status().terminal());
    // a final state stays
    assert!(!t.build(&supported()));
    assert!(!t.start());
    assert!(!t.finish(Err("late".to_string())));
    assert!(matches!(t.status(), PackageBuildStatus::Success(p) if p == "/nix/store/abc-hello"));
}

#[test]
fn failed_build_records_stderr() {
    let mut t = PackageEnum::NixosConfig(system_config());
    assert!(t.build(&Vec::new()));
    assert!(t.start());
    assert!(t.finish(build_static(&failed(" error: no such attribute\n"))));
    assert!(matches!(t.status(), PackageBuildStatus::Failed(m) if m == "error: no such attribute"));
    assert!(t.status().terminal());
}

#[test]
fn unsupported_architecture_never_builds() {
    let mut p = package("unknown");
    assert!(!p.build(&supported()));
    assert!(matches!(&p.status, PackageBuildStatus::UnsupportedArchitecture(a) if a == "unknown"));
    let mut t = PackageEnum::Derivation(p);
    assert!(!t.start());
    assert!(!t.finish(Ok("/nix/store/x".to_string())));
    assert!(!t.build(&vec!["unknown".to_string()]));
    assert!(matches!(t.status(), PackageBuildStatus::UnsupportedArchitecture(a) if a == "unknown"));

    let mut t = PackageEnum::Derivation(package("aarch64-linux"));
    assert!(!t.build(&supported()));
    assert!(
        matches!(t.status(), PackageBuildStatus::UnsupportedArchitecture(a) if a == "aarch64-linux")
    );
    // with an empty allowlist no package is built
    let mut t = PackageEnum::Derivation(package("x86_64-linux"));
    assert!(!t.build(&Vec::new()));
    assert!(
        matches!(t.status(), PackageBuildStatus::UnsupportedArchitecture(a) if a == "x86_64-linux")
    );
}

#[test]
fn system_config_ignores_the_allowlist() {
    let mut c = system_config();
    assert!(c.build());
    assert!(matches!(c.status, PackageBuildStatus::WaitingForBuild));
    assert!(!c.build());
}

#[test]
fn is_supported_compares_whole_tags() {
    let list = vec!["x86_64-linux".to_string(), "aarch64-darwin".to_string()];
    assert!(is_supported(&list, "x86_64-linux"));
    assert!(is_supported(&list, "aarch64-darwin"));
    assert!(!is_supported(&list, "x86_64"));
    assert!(!is_supported(&list, "x86_64-linux2"));
    assert!(!is_supported(&Vec::new(), "x86_64-linux"));
}

#[test]
fn status_clone_and_terminal() {
    let all = vec![
        PackageBuildStatus::Idle,
        PackageBuildStatus::WaitingForBuild,
        PackageBuildStatus::Building,
        PackageBuildStatus::UnsupportedArchitecture("a".to_string()),
        PackageBuildStatus::Success("p".to_string()),
        PackageBuildStatus::Failed("m".to_string()),
    ];
    let terminal: Vec<bool> = all.iter().map(|s| s.terminal()).collect();
    assert_eq!(terminal, vec![false, false, false, true, true, true]);
    for s in &all {
        assert_eq!(format!("{:?}", s.clone()), format!("{s:?}"));
    }
}

#[test]
fn no_arch_name() {
    assert_eq!(package("x86_64-linux").get_no_arch_name(), "packages.*.hello");
    let mut p = package("x86_64-linux");
    p.path = "x86_64-linux.x86_64-linux.x".to_string();
    assert_eq!(p.get_no_arch_name(), "*.*.x");
    let p = package("unknown");
    assert_eq!(p.get_no_arch_name(), "packages.*.hello");
    let mut p = package("unknown");
    p.path = "packages.wasm32-linux.hello".to_string();
    assert_eq!(p.get_no_arch_name(), "packages.wasm32-linux.hello");
}
