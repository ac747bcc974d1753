//! The whole fleet: every watched repository together with the build pool,
//! and the steps that take permits of the pool.

use vstd::prelude::*;
use crate::commit::{
    asked_targets, lemma_targets_in, listed_targets, CommitView, GitCommit, GitCommitView,
};
use crate::json::json_document;
use crate::manifest::ManifestTree;
use crate::package::{build_outcome, build_static, TargetView};
use crate::repo::{registered, registered_all, Repo, RepoInfo};
use crate::semaphore::Semaphore;
use crate::status::{BuildStatusView, CommitBuildStatus, PackageBuildStatus, RepoStatus};
use crate::tool::{
    build_arguments, build_command, list_arguments, strings_view, ToolOutput, ToolOutputView,
};
use crate::worker::{
    advance, next_phase, refs_map, refs_view, status_entering, WorkerEvent, WorkerPhase,
};

verus! {

/// The sum of the numbers of `s`.
pub open spec fn total(s: Seq<nat>) -> nat
    decreases s.len(),
{
    if s.len() == 0 {
        0
    } else {
        total(s.drop_last()) + s.last()
    }
}

/// Replacing one number changes the sum by the difference.
pub proof fn lemma_total_update(s: Seq<nat>, i: int, x: nat)
    requires
        0 <= i < s.len(),
    ensures
        total(s.update(i, x)) + s[i] == total(s) + x,
    decreases s.len(),
{
    if i == s.len() - 1 {
        assert(s.update(i, x).drop_last() =~= s.drop_last());
    } else {
        assert(s.update(i, x).drop_last() =~= s.drop_last().update(i, x));
        lemma_total_update(s.drop_last(), i, x);
    }
}

/// The sum of two lists in a row is the sum of their sums.
pub proof fn lemma_total_concat(a: Seq<nat>, b: Seq<nat>)
    ensures
        total(a + b) == total(a) + total(b),
    decreases b.len(),
{
    if b.len() == 0 {
        assert(a + b =~= a);
    } else {
        assert((a + b).drop_last() =~= a + b.drop_last());
        lemma_total_concat(a, b.drop_last());
    }
}

/// A list of zeros sums to zero.
pub proof fn lemma_total_zero(s: Seq<nat>)
    requires
        forall|i: int| 0 <= i < s.len() ==> s[i] == 0,
    ensures
        total(s) == 0,
    decreases s.len(),
{
    if s.len() > 0 {
        lemma_total_zero(s.drop_last());
    }
}

/// 1 for a target that is building, 0 for any other.
pub open spec fn building_one(target: TargetView) -> nat {
    if target.status() is Building {
        1
    } else {
        0
    }
}

/// How many of `targets` are building.
pub open spec fn building_targets(targets: Seq<TargetView>) -> nat {
    total(targets.map_values(|t: TargetView| building_one(t)))
}

/// How many targets of `commits` are building.
pub open spec fn building_commits(commits: Seq<CommitView>) -> nat {
    total(commits.map_values(|c: CommitView| building_targets(c.packages)))
}

/// The commits of each repository of a list, in order.
pub open spec fn fleet_view(repos: Seq<RepoInfo>) -> Seq<Seq<CommitView>> {
    repos.map_values(|r: RepoInfo| r.commits_view())
}

/// How many targets of the repositories are building.
pub open spec fn building_fleet(repos: Seq<Seq<CommitView>>) -> nat {
    total(repos.map_values(|cv: Seq<CommitView>| building_commits(cv)))
}

/// Replacing one target changes the number of building targets by what the
/// old and the new one count.
pub proof fn lemma_building_targets_update(targets: Seq<TargetView>, t: int, x: TargetView)
    requires
        0 <= t < targets.len(),
    ensures
        building_targets(targets.update(t, x)) + building_one(targets[t]) == building_targets(
            targets,
        ) + building_one(x),
{
    let w = targets.map_values(|t: TargetView| building_one(t));
    assert(targets.update(t, x).map_values(|t: TargetView| building_one(t)) =~= w.update(
        t,
        building_one(x),
    ));
    lemma_total_update(w, t, building_one(x));
}

/// Replacing one commit changes the number of building targets by what the
/// old and the new one count.
pub proof fn lemma_building_commits_update(commits: Seq<CommitView>, c: int, x: CommitView)
    requires
        0 <= c < commits.len(),
    ensures
        building_commits(commits.update(c, x)) + building_targets(commits[c].packages)
            == building_commits(commits) + building_targets(x.packages),
{
    let w = commits.map_values(|c: CommitView| building_targets(c.packages));
    assert(commits.update(c, x).map_values(|c: CommitView| building_targets(c.packages))
        =~= w.update(c, building_targets(x.packages)));
    lemma_total_update(w, c, building_targets(x.packages));
}

/// Replacing the commits of one repository changes the number of building
/// targets by what the old and the new ones count.
pub proof fn lemma_building_fleet_update(repos: Seq<Seq<CommitView>>, r: int, x: Seq<CommitView>)
    requires
        0 <= r < repos.len(),
    ensures
        building_fleet(repos.update(r, x)) + building_commits(repos[r]) == building_fleet(repos)
            + building_commits(x),
{
    let w = repos.map_values(|cv: Seq<CommitView>| building_commits(cv));
    assert(repos.update(r, x).map_values(|cv: Seq<CommitView>| building_commits(cv)) =~= w.update(
        r,
        building_commits(x),
    ));
    lemma_total_update(w, r, building_commits(x));
}

/// Targets in a row count as many building ones as the two parts together.
pub proof fn lemma_building_targets_concat(a: Seq<TargetView>, b: Seq<TargetView>)
    ensures
        building_targets(a + b) == building_targets(a) + building_targets(b),
{
    assert((a + b).map_values(|t: TargetView| building_one(t)) =~= a.map_values(
        |t: TargetView| building_one(t),
    ) + b.map_values(|t: TargetView| building_one(t)));
    lemma_total_concat(
        a.map_values(|t: TargetView| building_one(t)),
        b.map_values(|t: TargetView| building_one(t)),
    );
}

/// Asking for the build of idle targets leaves none of them building.
pub proof fn lemma_asked_builds_nothing(listed: Seq<TargetView>, supported: Seq<Seq<char>>)
    requires
        forall|k: int| 0 <= k < listed.len() ==> (#[trigger] listed[k]).status() is Idle,
    ensures
        building_targets(asked_targets(listed, supported)) == 0,
{
    let w = asked_targets(listed, supported).map_values(|t: TargetView| building_one(t));
    assert forall|i: int| 0 <= i < w.len() implies w[i] == 0 by {
        assert(listed[i].status() is Idle);
    }
    lemma_total_zero(w);
}

/// A commit that is met brings no building target.
pub proof fn lemma_registered_building(
    commits: Seq<CommitView>,
    url: Seq<char>,
    commit: GitCommitView,
)
    ensures
        building_commits(registered(commits, url, commit)) == building_commits(commits),
{
    let after = registered(commits, url, commit);
    if after != commits {
        let w = commits.map_values(|c: CommitView| building_targets(c.packages));
        let fresh = crate::commit::fresh_commit(url, commit);
        assert(fresh.packages.map_values(|t: TargetView| building_one(t)) =~= Seq::empty());
        assert(after.map_values(|c: CommitView| building_targets(c.packages)) =~= w.push(0));
        assert(w.push(0).drop_last() =~= w);
    }
}

/// Commits that are met bring no building target.
pub proof fn lemma_registered_all_building(
    commits: Seq<CommitView>,
    url: Seq<char>,
    met: Seq<GitCommitView>,
)
    ensures
        building_commits(registered_all(commits, url, met)) == building_commits(commits),
    decreases met.len(),
{
    if met.len() > 0 {
        lemma_registered_all_building(commits, url, met.drop_last());
        lemma_registered_building(registered_all(commits, url, met.drop_last()), url, met.last());
    }
}

/// Where one commit of a well-formed repository is replaced by one of the
/// same hash, the repository stays well formed, and its count of building
/// targets changes by what the old and the new commit count.
pub proof fn lemma_commit_replaced(repo0: RepoInfo, repo1: RepoInfo, c: int)
    requires
        repo0.wf(),
        repo0.same_but_commits(&repo1),
        0 <= c < repo0.commits@.len(),
        repo1.commits@ == repo0.commits@.update(c, repo1.commits@[c]),
        repo1.commits@[c]@.hash == repo0.commits@[c]@.hash,
    ensures
        repo1.wf(),
        repo1.commits_view() == repo0.commits_view().update(c, repo1.commits@[c]@),
        building_commits(repo1.commits_view()) + building_targets(repo0.commits@[c]@.packages)
            == building_commits(repo0.commits_view()) + building_targets(
            repo1.commits@[c]@.packages,
        ),
{
    let cv0 = repo0.commits_view();
    let cv1 = repo1.commits_view();
    assert(cv1 =~= cv0.update(c, repo1.commits@[c]@));
    assert(cv0[c] == repo0.commits@[c]@);
    lemma_building_commits_update(cv0, c, repo1.commits@[c]@);
    assert forall|i: int, j: int| 0 <= i < j < cv1.len() implies cv1[i].hash != cv1[j].hash by {
        assert(cv0[i].hash != cv0[j].hash);
    }
    repo0.lemma_wf_with_commits(&repo1);
}

/// Where one repository of a list is replaced, the count of building targets
/// changes by what the old and the new repository count.
pub proof fn lemma_repo_replaced(repos0: Seq<RepoInfo>, repos1: Seq<RepoInfo>, r: int)
    requires
        0 <= r < repos0.len(),
        repos1 == repos0.update(r, repos1[r]),
    ensures
        building_fleet(fleet_view(repos1)) + building_commits(repos0[r].commits_view())
            == building_fleet(fleet_view(repos0)) + building_commits(repos1[r].commits_view()),
{
    assert(fleet_view(repos1) =~= fleet_view(repos0).update(r, repos1[r].commits_view()));
    lemma_building_fleet_update(fleet_view(repos0), r, repos1[r].commits_view());
}

/// The two lists of repositories differ at position `r` at most.
pub open spec fn same_but_repo(before: Seq<RepoInfo>, after: Seq<RepoInfo>, r: int) -> bool {
    &&& after.len() == before.len()
    &&& forall|i: int| 0 <= i < before.len() && i != r ==> after[i] == before[i]
}

/// `after` is `before` with `target` in place of the target at position `t`
/// of commit `c` of repository `r`, and nothing else changed.
pub open spec fn target_replaced(
    before: Seq<RepoInfo>,
    after: Seq<RepoInfo>,
    r: int,
    c: int,
    t: int,
    target: TargetView,
) -> bool {
    &&& same_but_repo(before, after, r)
    &&& before[r].same_but_commits(&after[r])
    &&& after[r].commits_view() == before[r].commits_view().update(
        c,
        CommitView {
            packages: before[r].commits_view()[c].packages.update(t, target),
            ..before[r].commits_view()[c]
        },
    )
}

/// The two lists of commits differ at position `c` at most.
pub open spec fn same_but_commit(before: Seq<CommitView>, after: Seq<CommitView>, c: int) -> bool {
    &&& after.len() == before.len()
    &&& forall|i: int| 0 <= i < before.len() && i != c ==> after[i] == before[i]
}

/// Every watched repository and the build pool that they share.
#[derive(Debug)]
pub struct Fleet {
    repos: Vec<RepoInfo>,
    sem: Semaphore,
    listing: usize,
    supported_architectures: Vec<String>,
}

impl Fleet {
    /// The repositories.
    pub closed spec fn repos(&self) -> Seq<RepoInfo> {
        self.repos@
    }

    /// How many permits the build pool has.
    pub closed spec fn capacity(&self) -> nat {
        self.sem.capacity()
    }

    /// How many permits of the build pool are out.
    pub closed spec fn permits_out(&self) -> nat {
        self.sem.in_use()
    }

    /// How many runs of the listing command hold a permit.
    pub closed spec fn listing(&self) -> nat {
        self.listing as nat
    }

    /// The architectures for which packages are built.
    pub closed spec fn supported(&self) -> Seq<Seq<char>> {
        strings_view(self.supported_architectures@)
    }

    /// How many targets are building.
    pub open spec fn building(&self) -> nat {
        building_fleet(fleet_view(self.repos()))
    }

    /// The target at position `t` of the commit at position `c` of the
    /// repository at position `r`.
    pub open spec fn target(&self, r: int, c: int, t: int) -> TargetView {
        self.repos()[r].commits_view()[c].packages[t]
    }

    /// Whether there is a target at those positions.
    pub open spec fn has_target(&self, r: int, c: int, t: int) -> bool {
        &&& 0 <= r < self.repos().len()
        &&& 0 <= c < self.repos()[r].commits_view().len()
        &&& 0 <= t < self.repos()[r].commits_view()[c].packages.len()
    }

    /// What holds of the fleet at every moment: each repository is well
    /// formed, and every permit that is out is held by a target that is
    /// building or by a run of the listing command, one each.
    pub closed spec fn wf(&self) -> bool {
        &&& forall|r: int| 0 <= r < self.repos@.len() ==> (#[trigger] self.repos@[r]).wf()
        &&& self.sem.in_use() == self.listing + building_fleet(fleet_view(self.repos@))
        &&& self.sem.in_use() <= self.sem.capacity()
    }

    /// A fleet without repositories, with a build pool of `permits` permits
    /// that builds packages of the `supported` architectures.
    pub fn new(permits: usize, supported: Vec<String>) -> (r: Fleet)
        ensures
            r.wf(),
            r.repos().len() == 0,
            r.capacity() == permits,
            r.permits_out() == 0,
            r.listing() == 0,
            r.supported() == strings_view(supported@),
    {
        let r = Fleet {
            repos: Vec::new(),
            sem: Semaphore::init(permits),
            listing: 0,
            supported_architectures: supported,
        };
        proof {
            assert(fleet_view(r.repos@) =~= Seq::empty());
            assert(fleet_view(r.repos@).map_values(|cv: Seq<CommitView>| building_commits(cv))
                =~= Seq::empty());
        }
        r
    }

    /// The repositories, for reading.
    pub fn repositories(&self) -> (r: &Vec<RepoInfo>)
        ensures
            r@ == self.repos(),
    {
        &self.repos
    }

    /// Grants a permit to the target at position `t` of commit `c` of
    /// repository `r`, if that target waits for one and one is left: the
    /// target is then building, and the arguments of the build command are
    /// returned. Otherwise nothing changes.
    pub fn start_build(&mut self, r: usize, c: usize, t: usize) -> (command: Option<Vec<String>>)
        requires
            old(self).wf(),
        ensures
            final(self).wf(),
            final(self).capacity() == old(self).capacity(),
            final(self).listing() == old(self).listing(),
            final(self).supported() == old(self).supported(),
            command is Some <==> {
                &&& old(self).has_target(r as int, c as int, t as int)
                &&& old(self).target(r as int, c as int, t as int).status() is WaitingForBuild
                &&& old(self).permits_out() < old(self).capacity()
            },
            command is Some ==> {
                &&& strings_view(command->Some_0@) == build_arguments(
                    old(self).target(r as int, c as int, t as int).flake_url(),
                )
                &&& final(self).permits_out() == old(self).permits_out() + 1
                &&& final(self).building() == old(self).building() + 1
                &&& target_replaced(
                    old(self).repos(),
                    final(self).repos(),
                    r as int,
                    c as int,
                    t as int,
                    old(self).target(r as int, c as int, t as int).with_status(
                        BuildStatusView::Building,
                    ),
                )
            },
            command is None ==> {
                &&& final(self).repos() == old(self).repos()
                &&& final(self).permits_out() == old(self).permits_out()
            },
    {
        if r >= self.repos.len() || c >= self.repos[r].commits.len() || t
            >= self.repos[r].commits[c].packages.len() {
            return None;
        }
        assert(self.repos@[r as int].commits_view()[c as int]
            == self.repos@[r as int].commits@[c as int]@);
        assert(self.repos@[r as int].commits@[c as int]@.packages[t as int]
            == self.repos@[r as int].commits@[c as int].packages@[t as int]@);
        let waits = match self.repos[r].commits[c].packages[t].status() {
            crate::status::PackageBuildStatus::WaitingForBuild => true,
            _ => false,
        };
        if !waits {
            return None;
        }
        if !self.sem.acquire() {
            return None;
        }
        let ghost repo0 = self.repos@[r as int];
        let ghost commit0 = repo0.commits@[c as int];
        let ghost target0 = commit0.packages@[t as int];
        let command = build_command(self.repos[r].commits[c].packages[t].flake_url().as_str());
        self.repos[r].commits[c].packages[t].start();
        proof {
            let repo1 = self.repos@[r as int];
            let commit1 = repo1.commits@[c as int];
            let target1 = commit1.packages@[t as int];
            assert(self.repos@ == old(self).repos@.update(r as int, repo1));
            assert(repo1.commits@ == repo0.commits@.update(c as int, commit1));
            assert(commit1.packages@ == commit0.packages@.update(t as int, target1));
            assert(target1@ == target0@.with_status(BuildStatusView::Building));
            assert(commit1@.packages =~= commit0@.packages.update(t as int, target1@));
            assert(repo1.commits_view() =~= repo0.commits_view().update(c as int, commit1@));
            assert(fleet_view(self.repos@) =~= fleet_view(old(self).repos@).update(
                r as int,
                repo1.commits_view(),
            ));
            lemma_building_targets_update(commit0@.packages, t as int, target1@);
            lemma_building_commits_update(repo0.commits_view(), c as int, commit1@);
            lemma_building_fleet_update(
                fleet_view(old(self).repos@),
                r as int,
                repo1.commits_view(),
            );
            assert(repo0.wf());
            repo0.lemma_wf_with_commits(&repo1);
        }
        Some(command)
    }

    /// The pool of `other` is as this one: as many permits, as many of them
    /// out, as many listing runs, the same supported architectures.
    pub open spec fn same_pool(&self, other: &Fleet) -> bool {
        &&& other.capacity() == self.capacity()
        &&& other.permits_out() == self.permits_out()
        &&& other.listing() == self.listing()
        &&& other.supported() == self.supported()
    }

    /// At every moment no more targets are building than the build pool has
    /// permits.
    pub proof fn lemma_building_within_capacity(&self)
        requires
            self.wf(),
        ensures
            self.building() <= self.capacity(),
            self.building() + self.listing() == self.permits_out(),
    {
    }

    /// How many permits of the build pool are out.
    pub fn permits_in_use(&self) -> (r: usize)
        ensures
            r == self.permits_out(),
    {
        self.sem.permits_in_use()
    }

    /// How many permits the build pool has.
    pub fn permits(&self) -> (r: usize)
        ensures
            r == self.capacity(),
    {
        self.sem.permits()
    }

    /// Adds the repository `repo`, not opened yet, and returns its position.
    pub fn add_repo(&mut self, repo: Repo, checkout_path: String, credentials: Option<String>) -> (r:
        usize)
        requires
            old(self).wf(),
        ensures
            final(self).wf(),
            old(self).same_pool(final(self)),
            r == old(self).repos().len(),
            final(self).repos().len() == r + 1,
            final(self).repos().subrange(0, r as int) == old(self).repos(),
            final(self).repos()[r as int].fresh(repo, checkout_path, credentials),
            final(self).building() == old(self).building(),
    {
        let node = RepoInfo::new(repo, checkout_path, credentials);
        let r = self.repos.len();
        proof {
            assert(node.commits_view() =~= Seq::empty());
            assert(node.commits_view().map_values(|c: CommitView| building_targets(c.packages))
                =~= Seq::empty());
            let fv = fleet_view(self.repos@);
            let w = fv.map_values(|cv: Seq<CommitView>| building_commits(cv));
            assert(fleet_view(self.repos@.push(node)) =~= fv.push(node.commits_view()));
            assert(fv.push(node.commits_view()).map_values(
                |cv: Seq<CommitView>| building_commits(cv),
            ) =~= w.push(0));
            assert(w.push(0).drop_last() =~= w);
        }
        self.repos.push(node);
        assert(self.repos@.subrange(0, r as int) =~= old(self).repos@);
        r
    }

    /// Starts, or restarts, the worker of repository `r`: the repository is
    /// opening. Nothing changes where there is no such repository.
    pub fn thread_poll(&mut self, r: usize) -> (phase: WorkerPhase)
        requires
            old(self).wf(),
        ensures
            final(self).wf(),
            old(self).same_pool(final(self)),
            phase == WorkerPhase::Opening,
            same_but_repo(old(self).repos(), final(self).repos(), r as int),
            r < old(self).repos().len() ==> final(self).repos()[r as int].status
                == RepoStatus::Opening && final(self).repos()[r as int].same_but_status(
                &old(self).repos()[r as int],
            ),
            final(self).building() == old(self).building(),
    {
        if r >= self.repos.len() {
            return WorkerPhase::Opening;
        }
        let phase = self.repos[r].thread_poll();
        proof {
            let repo0 = old(self).repos@[r as int];
            let repo1 = self.repos@[r as int];
            assert(self.repos@ == old(self).repos@.update(r as int, repo1));
            repo0.lemma_wf_with_status(&repo1);
            lemma_repo_replaced(old(self).repos@, self.repos@, r as int);
        }
        phase
    }

    /// Takes the worker of repository `r` from the step `phase`, which
    /// ended with `event`, to the next step, and shows the status of that
    /// step. The status stays where there is no such repository.
    pub fn thread_loop(&mut self, r: usize, phase: WorkerPhase, event: WorkerEvent) -> (next:
        WorkerPhase)
        requires
            old(self).wf(),
        ensures
            final(self).wf(),
            old(self).same_pool(final(self)),
            next == next_phase(phase, event),
            same_but_repo(old(self).repos(), final(self).repos(), r as int),
            r < old(self).repos().len() ==> {
                &&& final(self).repos()[r as int].status == status_entering(
                    phase,
                    next,
                    old(self).repos()[r as int].status,
                )
                &&& final(self).repos()[r as int].same_but_status(&old(self).repos()[r as int])
            },
            final(self).building() == old(self).building(),
    {
        if r >= self.repos.len() {
            return advance(phase, event);
        }
        let next = self.repos[r].thread_loop(phase, event);
        proof {
            let repo0 = old(self).repos@[r as int];
            let repo1 = self.repos@[r as int];
            assert(self.repos@ == old(self).repos@.update(r as int, repo1));
            repo0.lemma_wf_with_status(&repo1);
            lemma_repo_replaced(old(self).repos@, self.repos@, r as int);
        }
        next
    }

    /// Reads the two snapshots of the references of repository `r` taken
    /// around a fetch that succeeded: the repository is idle again, and the
    /// result says whether any reference moved.
    pub fn pull(
        &mut self,
        r: usize,
        before: &Vec<(String, String)>,
        after: &Vec<(String, String)>,
    ) -> (event: WorkerEvent)
        requires
            old(self).wf(),
        ensures
            final(self).wf(),
            old(self).same_pool(final(self)),
            event == (WorkerEvent::Succeeded {
                changed: refs_map(refs_view(before@)) != refs_map(refs_view(after@)),
            }),
            same_but_repo(old(self).repos(), final(self).repos(), r as int),
            r < old(self).repos().len() ==> final(self).repos()[r as int].status
                == RepoStatus::Idle && final(self).repos()[r as int].same_but_status(
                &old(self).repos()[r as int],
            ),
            final(self).building() == old(self).building(),
    {
        if r >= self.repos.len() {
            return WorkerEvent::Succeeded { changed: crate::worker::refs_changed(before, after) };
        }
        let event = self.repos[r].pull(before, after);
        proof {
            let repo0 = old(self).repos@[r as int];
            let repo1 = self.repos@[r as int];
            assert(self.repos@ == old(self).repos@.update(r as int, repo1));
            repo0.lemma_wf_with_status(&repo1);
            lemma_repo_replaced(old(self).repos@, self.repos@, r as int);
        }
        event
    }

    /// Takes in what a scan of repository `r` found of the remote branch
    /// `branch` with tip `tip`. Returns the positions of the commits that
    /// this call created: the discovery of the targets of each is to be
    /// launched. Nothing changes where there is no such repository.
    pub fn scan_branch(&mut self, r: usize, branch: &str, tip: &GitCommit) -> (created: Vec<usize>)
        requires
            old(self).wf(),
        ensures
            final(self).wf(),
            old(self).same_pool(final(self)),
            same_but_repo(old(self).repos(), final(self).repos(), r as int),
            r < old(self).repos().len() ==> old(self).repos()[r as int].scanned(
                &final(self).repos()[r as int],
                branch@,
                tip@,
            ) && created@ == Seq::new(
                (final(self).repos()[r as int].commits@.len()
                    - old(self).repos()[r as int].commits@.len()) as nat,
                |k: int| (old(self).repos()[r as int].commits@.len() + k) as usize,
            ),
            r >= old(self).repos().len() ==> created@.len() == 0,
            final(self).building() == old(self).building(),
    {
        if r >= self.repos.len() {
            return Vec::new();
        }
        let created = self.repos[r].scan_branch(branch, tip);
        proof {
            let repo0 = old(self).repos@[r as int];
            let repo1 = self.repos@[r as int];
            assert(self.repos@ == old(self).repos@.update(r as int, repo1));
            lemma_registered_all_building(
                repo0.commits_view(),
                repo0.repo.url@,
                crate::repo::scan_walk(tip@, repo0.repo.build_depth),
            );
            lemma_repo_replaced(old(self).repos@, self.repos@, r as int);
        }
        created
    }

    /// Begins the discovery of the targets of commit `c` of repository `r`:
    /// the commit is getting its targets, and the arguments of the listing
    /// command are returned. `None`, and no change, where there is no such
    /// commit.
    pub fn begin_discovery(&mut self, r: usize, c: usize) -> (command: Option<Vec<String>>)
        requires
            old(self).wf(),
        ensures
            final(self).wf(),
            old(self).same_pool(final(self)),
            same_but_repo(old(self).repos(), final(self).repos(), r as int),
            final(self).building() == old(self).building(),
            command is Some <==> r < old(self).repos().len() && c
                < old(self).repos()[r as int].commits@.len(),
            command is None ==> final(self).repos() == old(self).repos(),
            command is Some ==> {
                let before = old(self).repos()[r as int];
                let after = final(self).repos()[r as int];
                &&& before.same_but_commits(&after)
                &&& same_but_commit(before.commits_view(), after.commits_view(), c as int)
                &&& after.commits_view()[c as int] == (CommitView {
                    status: CommitBuildStatus::GettingPackages,
                    ..before.commits_view()[c as int]
                })
                &&& strings_view(command->Some_0@) == list_arguments(
                    before.commits_view()[c as int].flake_url,
                )
            },
    {
        if r >= self.repos.len() || c >= self.repos[r].commits.len() {
            return None;
        }
        let command = self.repos[r].commits[c].build();
        proof {
            let repo0 = old(self).repos@[r as int];
            let repo1 = self.repos@[r as int];
            assert(self.repos@ == old(self).repos@.update(r as int, repo1));
            assert(repo1.commits@ == repo0.commits@.update(c as int, repo1.commits@[c as int]));
            lemma_commit_replaced(repo0, repo1, c as int);
            lemma_repo_replaced(old(self).repos@, self.repos@, r as int);
        }
        Some(command)
    }

    /// Takes a permit of the build pool for one run of the listing command,
    /// if one is left. Returns whether it did.
    pub fn start_listing(&mut self) -> (taken: bool)
        requires
            old(self).wf(),
        ensures
            final(self).wf(),
            final(self).repos() == old(self).repos(),
            final(self).capacity() == old(self).capacity(),
            final(self).supported() == old(self).supported(),
            taken == (old(self).permits_out() < old(self).capacity()),
            final(self).permits_out() == old(self).permits_out() + if taken {
                1nat
            } else {
                0nat
            },
            final(self).listing() == old(self).listing() + if taken {
                1nat
            } else {
                0nat
            },
    {
        let permits = self.sem.permits();
        if self.sem.acquire() {
            assert(self.listing < permits);
            self.listing = self.listing + 1;
            true
        } else {
            false
        }
    }

    /// Ends the discovery of the targets of commit `c` of repository `r`
    /// with what the listing command left behind. The permit of the run, if
    /// it held one, goes back to the pool. Where targets were listed, all of
    /// them are installed and the build of each is asked for; where listing
    /// failed, the targets stay as they were. Either way the commit is idle
    /// again. Returns the positions of the installed targets that now wait
    /// for a permit, in rising order.
    pub fn finish_listing(&mut self, r: usize, c: usize, output: &ToolOutput) -> (queued: Vec<usize>)
        requires
            old(self).wf(),
        ensures
            final(self).wf(),
            final(self).capacity() == old(self).capacity(),
            final(self).supported() == old(self).supported(),
            final(self).listing() == if old(self).listing() > 0 {
                (old(self).listing() - 1) as nat
            } else {
                0nat
            },
            final(self).building() == old(self).building(),
            same_but_repo(old(self).repos(), final(self).repos(), r as int),
            !(r < old(self).repos().len() && c < old(self).repos()[r as int].commits@.len())
                ==> final(self).repos() == old(self).repos() && queued@.len() == 0,
            r < old(self).repos().len() && c < old(self).repos()[r as int].commits@.len() ==> {
                let before = old(self).repos()[r as int];
                let after = final(self).repos()[r as int];
                let commit = before.commits_view()[c as int];
                &&& before.same_but_commits(&after)
                &&& same_but_commit(before.commits_view(), after.commits_view(), c as int)
                &&& after.commits_view()[c as int] == (CommitView {
                    status: CommitBuildStatus::Idle,
                    packages: match listed_targets(output@, commit.flake_url) {
                        Ok(listed) => commit.packages + asked_targets(listed, old(self).supported()),
                        Err(_) => commit.packages,
                    },
                    ..commit
                })
                &&& forall|i: int, j: int| 0 <= i < j < queued@.len() ==> queued@[i] < queued@[j]
                &&& forall|k: usize|
                    queued@.contains(k) <==> commit.packages.len() <= k
                        < after.commits_view()[c as int].packages.len()
                        && after.commits_view()[c as int].packages[k as int].status()
                        is WaitingForBuild
            },
    {
        if self.listing > 0 {
            self.sem.release();
            self.listing = self.listing - 1;
        }
        if r >= self.repos.len() || c >= self.repos[r].commits.len() {
            return Vec::new();
        }
        let ghost mid = self.repos@;
        let ghost commit0 = self.repos@[r as int].commits@[c as int];
        let listed = self.repos[r].commits[c].get_pkgs_list(output);
        let ghost listed_view = listed_targets(output@, commit0.flake_url@);
        let queued = self.repos[r].commits[c].install(listed, &self.supported_architectures);
        proof {
            let repo0 = old(self).repos@[r as int];
            let repo1 = self.repos@[r as int];
            let commit1 = repo1.commits@[c as int];
            assert(self.repos@ == old(self).repos@.update(r as int, repo1));
            assert(repo1.commits@ == repo0.commits@.update(c as int, commit1));
            lemma_commit_replaced(repo0, repo1, c as int);
            lemma_repo_replaced(old(self).repos@, self.repos@, r as int);
            match listed_view {
                Ok(found) => {
                    let doc = json_document(vstd::utf8::decode_utf8(output@.stdout));
                    let entries = doc->Some_0->Object_0;
                    lemma_targets_in(entries, Seq::empty(), commit0.flake_url@);
                    lemma_asked_builds_nothing(found, self.supported());
                    lemma_building_targets_concat(
                        commit0@.packages,
                        asked_targets(found, self.supported()),
                    );
                },
                Err(_) => {},
            }
        }
        queued
    }

    /// Ends the build of the target at position `t` of commit `c` of
    /// repository `r` with what the build command left behind, if that
    /// target is building: it has then succeeded with the artifact path or
    /// failed with the message, and its permit goes back to the pool.
    /// Returns whether it was building; nothing changes where it was not.
    pub fn finish_build(&mut self, r: usize, c: usize, t: usize, output: &ToolOutput) -> (finished:
        bool)
        requires
            old(self).wf(),
        ensures
            final(self).wf(),
            final(self).capacity() == old(self).capacity(),
            final(self).listing() == old(self).listing(),
            final(self).supported() == old(self).supported(),
            finished <==> old(self).has_target(r as int, c as int, t as int) && old(self).target(
                r as int,
                c as int,
                t as int,
            ).status() is Building,
            finished ==> {
                &&& final(self).permits_out() + 1 == old(self).permits_out()
                &&& final(self).building() + 1 == old(self).building()
                &&& target_replaced(
                    old(self).repos(),
                    final(self).repos(),
                    r as int,
                    c as int,
                    t as int,
                    old(self).target(r as int, c as int, t as int).after_finish(
                        build_outcome(output@),
                    ),
                )
            },
            !finished ==> final(self).repos() == old(self).repos() && final(self).permits_out()
                == old(self).permits_out(),
    {
        if r >= self.repos.len() || c >= self.repos[r].commits.len() || t
            >= self.repos[r].commits[c].packages.len() {
            return false;
        }
        assert(self.repos@[r as int].commits_view()[c as int]
            == self.repos@[r as int].commits@[c as int]@);
        assert(self.repos@[r as int].commits@[c as int]@.packages[t as int]
            == self.repos@[r as int].commits@[c as int].packages@[t as int]@);
        let builds = match self.repos[r].commits[c].packages[t].status() {
            PackageBuildStatus::Building => true,
            _ => false,
        };
        if !builds {
            return false;
        }
        let ghost repo0 = self.repos@[r as int];
        let ghost commit0 = repo0.commits@[c as int];
        let ghost target0 = commit0.packages@[t as int];
        let result = build_static(output);
        self.repos[r].commits[c].packages[t].finish(result);
        proof {
            let repo1 = self.repos@[r as int];
            let commit1 = repo1.commits@[c as int];
            let target1 = commit1.packages@[t as int];
            assert(self.repos@ == old(self).repos@.update(r as int, repo1));
            assert(repo1.commits@ == repo0.commits@.update(c as int, commit1));
            assert(commit1.packages@ == commit0.packages@.update(t as int, target1));
            assert(target1@ == target0@.after_finish(build_outcome(output@)));
            assert(commit1@.packages =~= commit0@.packages.update(t as int, target1@));
            lemma_building_targets_update(commit0@.packages, t as int, target1@);
            lemma_commit_replaced(repo0, repo1, c as int);
            lemma_repo_replaced(old(self).repos@, self.repos@, r as int);
        }
        self.sem.release();
        true
    }
}

} // verus!
