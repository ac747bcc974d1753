use nix_autobuild::repo::{Repo, RepoInfo};
use nix_autobuild::status::RepoStatus;
use nix_autobuild::tool::ToolOutput;
use nix_autobuild::worker::WorkerPhase::{Cloning, Opening, Polling, Pulling, Sleeping, Teardown};
use nix_autobuild::worker::{
    advance, find_ref, refs_changed, WorkerAction, WorkerEvent, WorkerPhase,
};

fn node() -> RepoInfo {
    RepoInfo::new(
        Repo {
            url: "h/r".to_string(),
            poll_interval_sec: 42,
            branches: vec!["main".to_string()],
            build_depth: 1,
            credentials_file: Some("/run/creds".to_string()),
        },
        "/data/repos/h_r".to_string(),
        Some("tok".to_string()),
    )
}

const OK: WorkerEvent = WorkerEvent::Succeeded { changed: false };
const CHANGED: WorkerEvent = WorkerEvent::Succeeded { changed: true };
const FAILED: WorkerEvent = WorkerEvent::Failed;

fn refs(list: &[(&str, &str)]) -> Vec<(String, String)> {
    list.iter().map(|(n, t)| (n.to_string(), t.to_string())).collect()
}

#[test]
fn transition_table() {
    let table = [
        (Opening, OK, Polling),
        (Opening, CHANGED, Polling),
        (Opening, FAILED, Cloning),
        (Cloning, OK, Polling),
        (Cloning, FAILED, Teardown),
        (Polling, OK, Pulling),
        (Polling, CHANGED, Pulling),
        (Polling, FAILED, Teardown),
        (Pulling, CHANGED, Polling),
        (Pulling, OK, Sleeping),
        (Pulling, FAILED, Teardown),
        (Sleeping, OK, Pulling),
        (Sleeping, FAILED, Pulling),
        (Teardown, OK, Opening),
        (Teardown, FAILED, Opening),
    ];
    for (phase, event, next) in table {
        assert_eq!(advance(phase, event), next, "{phase:?} {event:?}");
        assert_eq!(node().thread_loop(phase, event), next, "{phase:?} {event:?}");
    }
}

#[test]
fn worker_starts_by_opening() {
    let mut repo = node();
    assert_eq!(repo.status, RepoStatus::Idle);
    assert_eq!(repo.thread_poll(), WorkerPhase::Opening);
    assert_eq!(repo.status, RepoStatus::Opening);
}

#[test]
fn quiet_cycle_statuses() {
    let mut repo = node();
    let mut seen = Vec::new();
    let mut phase = repo.thread_poll();
    seen.push(repo.status);
    for event in [OK, OK, OK, OK, OK, OK, CHANGED, OK] {
        phase = repo.thread_loop(phase, event);
        seen.push(repo.status);
    }
    assert_eq!(phase, WorkerPhase::Pulling);
    assert_eq!(
        seen,
        vec![
            RepoStatus::Opening,
            RepoStatus::Polling,
            RepoStatus::Pulling,
            RepoStatus::Idle,
            RepoStatus::Pulling,
            RepoStatus::Idle,
            RepoStatus::Pulling,
            RepoStatus::Polling,
            RepoStatus::Pulling,
        ]
    );
}

#[test]
fn teardown_and_recovery() {
    let mut repo = node();
    let mut phase = repo.thread_poll();
    phase = repo.thread_loop(phase, OK); // opened
    phase = repo.thread_loop(phase, OK); // scanned
    assert_eq!((phase, repo.status), (WorkerPhase::Pulling, RepoStatus::Pulling));
    // the fetch fails: the checkout is removed
    phase = repo.thread_loop(phase, FAILED);
    assert_eq!((phase, repo.status), (WorkerPhase::Teardown, RepoStatus::Pulling));
    match repo.action(phase) {
        WorkerAction::Delete(args) => assert_eq!(args, vec!["-rf", "/data/repos/h_r"]),
        other => panic!("unexpected {other:?}"),
    }
    let removed = repo.delete_repo(&ToolOutput { code: Some(0), stdout: Vec::new(), stderr: Vec::new() });
    assert_eq!(removed, OK);
    phase = repo.thread_loop(phase, removed);
    assert_eq!((phase, repo.status), (WorkerPhase::Opening, RepoStatus::Opening));
    // nothing to open any more: a fresh clone follows
    phase = repo.thread_loop(phase, FAILED);
    assert_eq!((phase, repo.status), (WorkerPhase::Cloning, RepoStatus::Cloning));
    match repo.action(phase) {
        WorkerAction::Clone(url) => assert_eq!(url, "https://tok@h/r"),
        other => panic!("unexpected {other:?}"),
    }
    phase = repo.thread_loop(phase, OK);
    assert_eq!((phase, repo.status), (WorkerPhase::Polling, RepoStatus::Polling));
    phase = repo.thread_loop(phase, OK);
    phase = repo.thread_loop(phase, OK);
    assert_eq!((phase, repo.status), (WorkerPhase::Sleeping, RepoStatus::Idle));
}

#[test]
fn failed_clone_tears_down_idle() {
    let mut repo = node();
    let mut phase = repo.thread_poll();
    phase = repo.thread_loop(phase, FAILED);
    phase = repo.thread_loop(phase, FAILED);
    assert_eq!((phase, repo.status), (WorkerPhase::Teardown, RepoStatus::Idle));
    // a teardown that fails is followed by opening all the same
    let kept = repo.delete_repo(&ToolOutput { code: Some(1), stdout: Vec::new(), stderr: b"busy".to_vec() });
    assert_eq!(kept, FAILED);
    assert_eq!(repo.thread_loop(phase, kept), WorkerPhase::Opening);
    let killed = repo.delete_repo(&ToolOutput { code: None, stdout: Vec::new(), stderr: Vec::new() });
    assert_eq!(killed, FAILED);
}

#[test]
fn failed_scan_keeps_polling_status() {
    let mut repo = node();
    let mut phase = repo.thread_poll();
    phase = repo.thread_loop(phase, OK);
    phase = repo.thread_loop(phase, FAILED);
    assert_eq!((phase, repo.status), (WorkerPhase::Teardown, RepoStatus::Polling));
}

#[test]
fn actions_of_the_steps() {
    let repo = node();
    assert!(matches!(repo.action(WorkerPhase::Opening), WorkerAction::Open));
    assert!(matches!(repo.action(WorkerPhase::Polling), WorkerAction::Scan));
    assert!(matches!(repo.action(WorkerPhase::Pulling), WorkerAction::Pull));
    assert!(matches!(repo.action(WorkerPhase::Sleeping), WorkerAction::Sleep(42)));
}

#[test]
fn pull_compares_the_snapshots() {
    let mut repo = node();
    repo.status = RepoStatus::Pulling;
    let before = refs(&[("refs/heads/main", "a"), ("refs/remotes/origin/main", "a")]);
    let same = refs(&[("refs/remotes/origin/main", "a"), ("refs/heads/main", "a")]);
    assert_eq!(repo.pull(&before, &same), OK);
    assert_eq!(repo.status, RepoStatus::Idle);
    let moved = refs(&[("refs/heads/main", "a"), ("refs/remotes/origin/main", "b")]);
    repo.status = RepoStatus::Pulling;
    assert_eq!(repo.pull(&before, &moved), CHANGED);
    assert_eq!(repo.status, RepoStatus::Idle);
}

#[test]
fn refs_changed_is_map_inequality() {
    let a = refs(&[("x", "1"), ("y", "2")]);
    assert!(!refs_changed(&a, &a));
    assert!(!refs_changed(&Vec::new(), &Vec::new()));
    assert!(!refs_changed(&a, &refs(&[("y", "2"), ("x", "1")])));
    // a later entry of the same name wins
    assert!(!refs_changed(&a, &refs(&[("x", "0"), ("y", "2"), ("x", "1")])));
    assert!(refs_changed(&a, &refs(&[("x", "1"), ("y", "2"), ("x", "0")])));
    assert!(refs_changed(&a, &refs(&[("x", "1")])));
    assert!(refs_changed(&refs(&[("x", "1")]), &a));
    assert!(refs_changed(&a, &refs(&[("x", "1"), ("y", "3")])));
    assert!(refs_changed(&a, &refs(&[("x", "1"), ("z", "2")])));
    assert!(refs_changed(&Vec::new(), &a));
    assert!(refs_changed(&a, &Vec::new()));
}

#[test]
fn find_ref_takes_the_last_entry() {
    let list = refs(&[("x", "1"), ("y", "2"), ("x", "3")]);
    assert_eq!(find_ref(&list, "x"), Some(&"3".to_string()));
    assert_eq!(find_ref(&list, "y"), Some(&"2".to_string()));
    assert_eq!(find_ref(&list, "z"), None);
    assert_eq!(find_ref(&Vec::new(), "x"), None);
}
