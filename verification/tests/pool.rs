use nix_autobuild::commit::GitCommit;
use nix_autobuild::fleet::Fleet;
use nix_autobuild::repo::Repo;
use nix_autobuild::semaphore::Semaphore;
use nix_autobuild::status::{CommitBuildStatus, PackageBuildStatus, RepoStatus};
use nix_autobuild::tool::ToolOutput;
use nix_autobuild::worker::{WorkerEvent, WorkerPhase};

fn config(url: &str, branches: &[&str]) -> Repo {
    Repo {
        url: url.to_string(),
        poll_interval_sec: 1,
        branches: branches.iter().map(|b| b.to_string()).collect(),
        build_depth: 1,
        credentials_file: None,
    }
}

fn tip(id: &str) -> GitCommit {
    GitCommit { id: id.to_string(), message: Some("m".to_string()), seconds: 0, parents: Vec::new() }
}

fn listing(names: &[&str]) -> ToolOutput {
    let items: Vec<String> = names
        .iter()
        .map(|n| format!(r#""{n}": {{"description":"d","name":"{n}","type":"derivation"}}"#))
        .collect();
    let text = format!(r#"{{"packages": {{"x86_64-linux": {{ {} }} }} }}"#, items.join(","));
    ToolOutput { code: Some(0), stdout: text.into_bytes(), stderr: Vec::new() }
}

fn built(path: &str) -> ToolOutput {
    ToolOutput { code: Some(0), stdout: format!("{path}\n").into_bytes(), stderr: Vec::new() }
}

fn count(fleet: &Fleet, wanted: fn(&PackageBuildStatus) -> bool) -> usize {
    fleet
        .repositories()
        .iter()
        .flat_map(|r| r.commits.iter())
        .flat_map(|c| c.packages.iter())
        .filter(|t| wanted(t.status()))
        .count()
}

fn building(fleet: &Fleet) -> usize {
    count(fleet, |s| matches!(s, PackageBuildStatus::Building))
}

fn waiting(fleet: &Fleet) -> usize {
    count(fleet, |s| matches!(s, PackageBuildStatus::WaitingForBuild))
}

/// A fleet of one repository with one commit whose targets were listed.
fn fleet_with_targets(permits: usize, names: &[&str]) -> (Fleet, Vec<usize>) {
    let mut fleet = Fleet::new(permits, vec!["x86_64-linux".to_string()]);
    let r = fleet.add_repo(config("h/r", &["main"]), "/d/h_r".to_string(), None);
    let created = fleet.scan_branch(r, "origin/main", &tip("abc"));
    assert_eq!(created, vec![0]);
    assert!(fleet.begin_discovery(r, 0).is_some());
    assert!(fleet.start_listing());
    let queued = fleet.finish_listing(r, 0, &listing(names));
    (fleet, queued)
}

#[test]
fn semaphore_counts_permits() {
    let mut sem = Semaphore::init(2);
    assert_eq!((sem.permits(), sem.permits_in_use()), (2, 0));
    assert!(!sem.release());
    assert!(sem.acquire());
    assert!(sem.acquire());
    assert!(!sem.acquire());
    assert_eq!((sem.permits(), sem.permits_in_use()), (2, 2));
    assert!(sem.release());
    assert_eq!(sem.permits_in_use(), 1);
    assert!(sem.acquire());
    assert!(sem.release());
    assert!(sem.release());
    assert!(!sem.release());
    assert_eq!((sem.permits(), sem.permits_in_use()), (2, 0));
}

#[test]
fn semaphore_of_no_permits_grants_none() {
    let mut sem = Semaphore::init(0);
    assert!(!sem.acquire());
    assert_eq!(sem.execute(|| 1), None);
}

#[test]
fn execute_runs_under_a_permit() {
    let mut sem = Semaphore::init(1);
    assert_eq!(sem.execute(|| 6 * 7), Some(42));
    assert_eq!(sem.permits_in_use(), 0);
    let failed: Option<Result<u8, String>> = sem.execute(|| Err("boom".to_string()));
    assert_eq!(failed, Some(Err("boom".to_string())));
    assert_eq!(sem.permits_in_use(), 0);
    assert!(sem.acquire());
    assert_eq!(sem.execute(|| 1), None);
    assert_eq!(sem.permits_in_use(), 1);
}

#[test]
fn build_semaphore_cap() {
    let names = ["a", "b", "c", "d", "e", "f", "g", "h", "i", "j"];
    let (mut fleet, queued) = fleet_with_targets(2, &names);
    assert_eq!(queued.len(), 10);
    assert_eq!(waiting(&fleet), 10);
    assert_eq!(fleet.permits(), 2);
    assert_eq!(fleet.permits_in_use(), 0);
    let mut running: Vec<usize> = Vec::new();
    let mut pending: Vec<usize> = queued.clone();
    let mut done = 0;
    let mut most = 0;
    while done < 10 {
        // every waiting target asks for a permit; two at most get one
        let mut still = Vec::new();
        for t in pending.drain(..) {
            match fleet.start_build(0, 0, t) {
                Some(command) => {
                    assert_eq!(command[0], "build");
                    running.push(t);
                }
                None => still.push(t),
            }
        }
        pending = still;
        assert!(building(&fleet) <= 2);
        assert_eq!(building(&fleet), running.len());
        assert_eq!(fleet.permits_in_use(), running.len());
        assert_eq!(waiting(&fleet), pending.len());
        most = most.max(building(&fleet));
        let t = running.remove(0);
        assert!(fleet.finish_build(0, 0, t, &built("/nix/store/x")));
        done += 1;
    }
    assert_eq!(most, 2);
    assert_eq!(building(&fleet), 0);
    assert_eq!(fleet.permits_in_use(), 0);
    assert_eq!(count(&fleet, |s| matches!(s, PackageBuildStatus::Success(p) if p == "/nix/store/x")), 10);
}

#[test]
fn listing_runs_take_permits_too() {
    let (mut fleet, queued) = fleet_with_targets(1, &["a"]);
    assert_eq!(queued, vec![0]);
    assert!(fleet.start_listing());
    assert_eq!(fleet.permits_in_use(), 1);
    assert!(!fleet.start_listing());
    assert!(fleet.start_build(0, 0, 0).is_none());
    assert_eq!(building(&fleet), 0);
    // the listing run ends: its permit is free for the build
    let again = fleet.finish_listing(0, 0, &ToolOutput { code: Some(1), stdout: Vec::new(), stderr: Vec::new() });
    assert!(again.is_empty());
    assert_eq!(fleet.permits_in_use(), 0);
    assert_eq!(fleet.repositories()[0].commits[0].packages.len(), 1);
    assert!(fleet.start_build(0, 0, 0).is_some());
    assert_eq!((building(&fleet), fleet.permits_in_use()), (1, 1));
}

#[test]
fn start_and_finish_need_the_right_state() {
    let (mut fleet, _) = fleet_with_targets(3, &["a", "b"]);
    assert!(!fleet.finish_build(0, 0, 0, &built("/nix/store/x")));
    assert!(fleet.start_build(0, 0, 5).is_none());
    assert!(fleet.start_build(0, 7, 0).is_none());
    assert!(fleet.start_build(9, 0, 0).is_none());
    assert_eq!(
        fleet.start_build(0, 0, 1),
        Some(
            vec!["build", "--no-link", "--print-out-paths", "git+https://h/r?rev=abc#packages.x86_64-linux.b"]
                .into_iter()
                .map(String::from)
                .collect()
        )
    );
    assert!(fleet.start_build(0, 0, 1).is_none());
    assert_eq!(fleet.permits_in_use(), 1);
    let failed = ToolOutput { code: Some(1), stdout: Vec::new(), stderr: b" error \n".to_vec() };
    assert!(fleet.finish_build(0, 0, 1, &failed));
    assert!(!fleet.finish_build(0, 0, 1, &failed));
    assert_eq!(fleet.permits_in_use(), 0);
    let status = fleet.repositories()[0].commits[0].packages[1].status();
    assert!(matches!(status, PackageBuildStatus::Failed(m) if m == "error"));
    // the sibling is untouched
    let sibling = fleet.repositories()[0].commits[0].packages[0].status();
    assert!(matches!(sibling, PackageBuildStatus::WaitingForBuild));
}

#[test]
fn unsupported_targets_never_take_a_permit() {
    let mut fleet = Fleet::new(4, vec!["aarch64-linux".to_string()]);
    let r = fleet.add_repo(config("h/r", &["main"]), "/d/h_r".to_string(), None);
    fleet.scan_branch(r, "origin/main", &tip("abc"));
    fleet.begin_discovery(r, 0);
    assert!(fleet.start_listing());
    let queued = fleet.finish_listing(r, 0, &listing(&["a", "b"]));
    assert!(queued.is_empty());
    assert!(fleet.start_build(r, 0, 0).is_none());
    assert_eq!(fleet.permits_in_use(), 0);
    for t in &fleet.repositories()[0].commits[0].packages {
        assert!(
            matches!(t.status(), PackageBuildStatus::UnsupportedArchitecture(a) if a == "x86_64-linux")
        );
    }
}

#[test]
fn discovery_through_the_fleet() {
    let mut fleet = Fleet::new(2, vec!["x86_64-linux".to_string()]);
    let r = fleet.add_repo(config("h/r", &["main", "dev"]), "/d/h_r".to_string(), None);
    assert_eq!(r, 0);
    assert_eq!(fleet.scan_branch(r, "origin/main", &tip("xyz")), vec![0]);
    // the same tip on another branch launches nothing
    assert!(fleet.scan_branch(r, "origin/dev", &tip("xyz")).is_empty());
    assert!(fleet.scan_branch(7, "origin/dev", &tip("other")).is_empty());
    assert_eq!(fleet.repositories()[0].commits.len(), 1);
    let command = fleet.begin_discovery(r, 0).expect("a commit");
    assert_eq!(command, vec!["flake", "show", "--json", "--all-systems", "git+https://h/r?rev=xyz"]);
    assert_eq!(fleet.repositories()[0].commits[0].status, CommitBuildStatus::GettingPackages);
    assert!(fleet.begin_discovery(r, 1).is_none());
    assert!(fleet.begin_discovery(3, 0).is_none());
    assert!(fleet.start_listing());
    let queued = fleet.finish_listing(r, 0, &listing(&["a"]));
    assert_eq!(queued, vec![0]);
    assert_eq!(fleet.repositories()[0].commits[0].status, CommitBuildStatus::Idle);
    assert_eq!(fleet.permits_in_use(), 0);
}

#[test]
fn workers_through_the_fleet() {
    let mut fleet = Fleet::new(1, Vec::new());
    let a = fleet.add_repo(config("h/a", &["main"]), "/d/h_a".to_string(), None);
    let b = fleet.add_repo(config("h/b", &["main"]), "/d/h_b".to_string(), None);
    assert_eq!((a, b), (0, 1));
    let mut phase = fleet.thread_poll(a);
    assert_eq!(fleet.repositories()[a].status, RepoStatus::Opening);
    assert_eq!(fleet.repositories()[b].status, RepoStatus::Idle);
    phase = fleet.thread_loop(a, phase, WorkerEvent::Failed);
    assert_eq!(phase, WorkerPhase::Cloning);
    assert_eq!(fleet.repositories()[a].status, RepoStatus::Cloning);
    phase = fleet.thread_loop(a, phase, WorkerEvent::Succeeded { changed: false });
    phase = fleet.thread_loop(a, phase, WorkerEvent::Succeeded { changed: false });
    assert_eq!(phase, WorkerPhase::Pulling);
    let refs = vec![("refs/remotes/origin/main".to_string(), "1".to_string())];
    let event = fleet.pull(a, &refs, &refs);
    assert_eq!(event, WorkerEvent::Succeeded { changed: false });
    assert_eq!(fleet.repositories()[a].status, RepoStatus::Idle);
    assert_eq!(fleet.thread_loop(a, phase, event), WorkerPhase::Sleeping);
    assert_eq!(fleet.repositories()[b].status, RepoStatus::Idle);
    // no such repository: the table still answers, nothing changes
    assert_eq!(fleet.thread_loop(9, WorkerPhase::Teardown, WorkerEvent::Failed), WorkerPhase::Opening);
    assert_eq!(fleet.thread_poll(9), WorkerPhase::Opening);
}
