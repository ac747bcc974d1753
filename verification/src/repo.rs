//! Repositories: their configuration, their commit registry and the hashes
//! tracked per branch.

use vstd::prelude::*;
use crate::commit::{fresh_commit, CommitInfo, CommitView, GitCommit, GitCommitView};
use crate::position::{first_position, lemma_first_position_mapped};
use crate::status::RepoStatus;
use crate::text::{
    contains_string, replace_char, str_eq, strip_prefix, trim, trimmed, with_char_replaced,
    without_prefix,
};
use crate::tool::strings_view;

verus! {

/// The configuration of one repository to watch.
#[derive(Debug)]
pub struct Repo {
    /// Where the repository lives, as host and path without a scheme.
    pub url: String,
    /// How many seconds to wait between two fetches that found nothing new.
    pub poll_interval_sec: u64,
    /// The branches to watch.
    pub branches: Vec<String>,
    /// How many commits to build from the tip of each branch.
    pub build_depth: u8,
    /// The file that holds the credentials for reading, if any are needed.
    pub credentials_file: Option<String>,
}

/// The configuration of the whole fleet.
#[derive(Debug)]
pub struct AutoBuildOptions {
    pub repos: Vec<Repo>,
    pub dir: String,
    pub supported_architectures: Vec<String>,
    pub host: String,
    pub port: u16,
    pub n_build_threads: usize,
}

/// One watched repository: its configuration, where it is checked out, the
/// hashes tracked per branch (tip first), every commit seen so far, and what
/// its worker is doing.
#[derive(Debug)]
pub struct RepoInfo {
    pub flake_url: String,
    pub repo: Repo,
    pub checkout_path: String,
    pub branch_commit_hashes: Vec<(String, Vec<String>)>,
    pub commits: Vec<CommitInfo>,
    pub status: RepoStatus,
    pub credentials: Option<String>,
}


/// The URL of the flake of a repository.
pub open spec fn repo_flake_url(url: Seq<char>) -> Seq<char> {
    "git+https://"@ + url
}

/// The value of each commit of a list, in order.
pub open spec fn commits_view(commits: Seq<CommitInfo>) -> Seq<CommitView> {
    commits.map_values(|c: CommitInfo| c@)
}

/// The name and the hashes of each branch of a list, in order.
pub open spec fn branches_view(branches: Seq<(String, Vec<String>)>) -> Seq<
    (Seq<char>, Seq<Seq<char>>),
> {
    branches.map_values(|b: (String, Vec<String>)| (b.0@, strings_view(b.1@)))
}

/// The hash of a commit, as the key by which commits are found.
pub open spec fn hash_of() -> spec_fn(CommitView) -> Seq<char> {
    |c: CommitView| c.hash
}

/// The position of the first commit with `hash`, or the number of commits
/// where none has it.
pub open spec fn hash_index(commits: Seq<CommitView>, hash: Seq<char>) -> int {
    first_position(commits.map_values(hash_of()), hash)
}

/// No two commits of the list have the same hash.
pub open spec fn hashes_unique(commits: Seq<CommitView>) -> bool {
    forall|i: int, j: int| 0 <= i < j < commits.len() ==> commits[i].hash != commits[j].hash
}

/// The registry after `commit` was met: as before where its hash is known,
/// else with a fresh node for it at the end.
pub open spec fn registered(commits: Seq<CommitView>, url: Seq<char>, commit: GitCommitView) -> Seq<
    CommitView,
> {
    if hash_index(commits, commit.id) < commits.len() {
        commits
    } else {
        commits.push(fresh_commit(url, commit))
    }
}

/// The registry after each of `met` was met, in order.
pub open spec fn registered_all(
    commits: Seq<CommitView>,
    url: Seq<char>,
    met: Seq<GitCommitView>,
) -> Seq<CommitView>
    decreases met.len(),
{
    if met.len() == 0 {
        commits
    } else {
        registered(registered_all(commits, url, met.drop_last()), url, met.last())
    }
}

/// Meeting `a` and then `b` is meeting `a + b`.
pub proof fn lemma_registered_all_concat(
    commits: Seq<CommitView>,
    url: Seq<char>,
    a: Seq<GitCommitView>,
    b: Seq<GitCommitView>,
)
    ensures
        registered_all(commits, url, a + b) == registered_all(
            registered_all(commits, url, a),
            url,
            b,
        ),
    decreases b.len(),
{
    if b.len() == 0 {
        assert(a + b =~= a);
    } else {
        assert((a + b).drop_last() =~= a + b.drop_last());
        assert((a + b).last() == b.last());
        lemma_registered_all_concat(commits, url, a, b.drop_last());
    }
}

/// Meeting commits only adds nodes behind those that are there, and every
/// commit that was met has a node afterwards.
pub proof fn lemma_registered_all_grows(
    commits: Seq<CommitView>,
    url: Seq<char>,
    met: Seq<GitCommitView>,
)
    ensures
        commits.len() <= registered_all(commits, url, met).len(),
        registered_all(commits, url, met).subrange(0, commits.len() as int) == commits,
        hashes_unique(commits) ==> hashes_unique(registered_all(commits, url, met)),
        forall|k: int|
            0 <= k < met.len() ==> hash_index(
                registered_all(commits, url, met),
                (#[trigger] met[k]).id,
            ) < registered_all(commits, url, met).len(),
    decreases met.len(),
{
    let all = registered_all(commits, url, met);
    if met.len() == 0 {
        assert(all.subrange(0, commits.len() as int) =~= commits);
    } else {
        let before = registered_all(commits, url, met.drop_last());
        lemma_registered_all_grows(commits, url, met.drop_last());
        lemma_first_position_mapped(before, hash_of(), met.last().id);
        assert(all.subrange(0, commits.len() as int) =~= before.subrange(0, commits.len() as int));
        assert forall|k: int| 0 <= k < met.len() implies hash_index(all, (#[trigger] met[k]).id)
            < all.len() by {
            lemma_first_position_mapped(all, hash_of(), met[k].id);
            if k < met.len() - 1 {
                assert(met.drop_last()[k] == met[k]);
                lemma_first_position_mapped(before, hash_of(), met[k].id);
                let j = hash_index(before, met[k].id);
                assert(all[j].hash == met[k].id);
            } else {
                if hash_index(before, met.last().id) < before.len() {
                    let j = hash_index(before, met.last().id);
                    assert(all[j].hash == met[k].id);
                } else {
                    assert(all[all.len() - 1].hash == met[k].id);
                }
            }
        }
    }
}

/// The commits met below `commit` in a walk of `depth` levels: all its
/// parents, then what is met below each parent in a walk of one level less.
pub open spec fn parents_walk(commit: GitCommitView, depth: nat) -> Seq<GitCommitView>
    decreases depth, 0nat, 0nat,
{
    if depth == 0 {
        Seq::empty()
    } else {
        commit.parents + walk_below(commit.parents, commit.parents.len(), (depth - 1) as nat)
    }
}

/// The commits met below the first `n` of `parents`, each in a walk of
/// `depth` levels.
pub open spec fn walk_below(parents: Seq<GitCommitView>, n: nat, depth: nat) -> Seq<GitCommitView>
    decreases depth, 1nat, n,
{
    if n == 0 || n > parents.len() {
        Seq::empty()
    } else {
        walk_below(parents, (n - 1) as nat, depth) + parents_walk(parents[n - 1], depth)
    }
}

/// The commits met in a scan from `tip` with build depth `build_depth`: the
/// tip, then its ancestors in a walk of one level less than the depth.
pub open spec fn scan_walk(tip: GitCommitView, build_depth: u8) -> Seq<GitCommitView> {
    seq![tip] + parents_walk(
        tip,
        if build_depth == 0 {
            0nat
        } else {
            (build_depth - 1) as nat
        },
    )
}

/// The id of each commit of a list, in order.
pub open spec fn ids_of(commits: Seq<GitCommitView>) -> Seq<Seq<char>> {
    commits.map_values(|c: GitCommitView| c.id)
}

/// The name under which a remote branch is watched: its name without
/// `origin/` in front.
pub open spec fn short_branch_name(name: Seq<char>) -> Seq<char> {
    without_prefix(name, "origin/"@)
}

/// Meeting a commit keeps every node where it was and as it was, keeps the
/// hashes apart, and leaves exactly one node with the hash of the commit.
pub proof fn lemma_registered_once(commits: Seq<CommitView>, url: Seq<char>, commit: GitCommitView)
    requires
        hashes_unique(commits),
    ensures
        hashes_unique(registered(commits, url, commit)),
        registered(commits, url, commit).subrange(0, commits.len() as int) == commits,
        hash_index(registered(commits, url, commit), commit.id) < registered(
            commits,
            url,
            commit,
        ).len(),
        forall|j: int|
            0 <= j < registered(commits, url, commit).len() && registered(
                commits,
                url,
                commit,
            )[j].hash == commit.id ==> j == hash_index(
                registered(commits, url, commit),
                commit.id,
            ),
{
    let after = registered(commits, url, commit);
    lemma_first_position_mapped(commits, hash_of(), commit.id);
    lemma_first_position_mapped(after, hash_of(), commit.id);
    assert(after.subrange(0, commits.len() as int) =~= commits);
    if hash_index(commits, commit.id) == commits.len() {
        assert(after[after.len() - 1].hash == commit.id);
    }
    let k = hash_index(after, commit.id);
    assert forall|j: int| 0 <= j < after.len() && after[j].hash == commit.id implies j == k by {
        if j < k {
            assert(after[j].hash != commit.id);
        } else if j > k {
            assert(after[k].hash != after[j].hash);
        }
    }
}

/// Meeting a commit whose hash was met before changes nothing, and finds
/// the node that the first meeting found or made.
pub proof fn lemma_registered_again(
    commits: Seq<CommitView>,
    url: Seq<char>,
    first: GitCommitView,
    again: GitCommitView,
)
    requires
        first.id == again.id,
    ensures
        registered(registered(commits, url, first), url, again) == registered(commits, url, first),
        hash_index(registered(registered(commits, url, first), url, again), again.id)
            == hash_index(registered(commits, url, first), first.id),
{
    let once = registered(commits, url, first);
    lemma_first_position_mapped(commits, hash_of(), first.id);
    lemma_first_position_mapped(once, hash_of(), first.id);
    if hash_index(commits, first.id) == commits.len() {
        assert(once[once.len() - 1].hash == first.id);
    }
}

/// Meeting commits whose hashes are all known creates no node.
pub proof fn lemma_known_commits_create_nothing(
    commits: Seq<CommitView>,
    url: Seq<char>,
    met: Seq<GitCommitView>,
)
    requires
        forall|k: int| 0 <= k < met.len() ==> hash_index(commits, (#[trigger] met[k]).id)
            < commits.len(),
    ensures
        registered_all(commits, url, met) == commits,
    decreases met.len(),
{
    if met.len() > 0 {
        assert forall|k: int| 0 <= k < met.drop_last().len() implies hash_index(
            commits,
            (#[trigger] met.drop_last()[k]).id,
        ) < commits.len() by {
            assert(met.drop_last()[k] == met[k]);
        }
        lemma_known_commits_create_nothing(commits, url, met.drop_last());
        assert(met.last() == met[met.len() - 1]);
    }
}

/// Meeting the same commits a second time, on the same branch or on
/// another, creates no node: no discovery is launched twice for one hash.
pub proof fn lemma_rescan_creates_nothing(
    commits: Seq<CommitView>,
    url: Seq<char>,
    met: Seq<GitCommitView>,
)
    ensures
        registered_all(registered_all(commits, url, met), url, met) == registered_all(
            commits,
            url,
            met,
        ),
{
    lemma_registered_all_grows(commits, url, met);
    lemma_known_commits_create_nothing(registered_all(commits, url, met), url, met);
}

/// Every commit within `depth` levels below `commit` has one parent at most.
pub open spec fn linear_history(commit: GitCommitView, depth: nat) -> bool
    decreases depth,
{
    depth == 0 || (commit.parents.len() <= 1 && forall|i: int|
        0 <= i < commit.parents.len() ==> linear_history(
            #[trigger] commit.parents[i],
            (depth - 1) as nat,
        ))
}

/// A walk of `depth` levels through a history without merges meets `depth`
/// commits at most.
pub proof fn lemma_linear_walk_bound(commit: GitCommitView, depth: nat)
    requires
        linear_history(commit, depth),
    ensures
        parents_walk(commit, depth).len() <= depth,
    decreases depth,
{
    if depth > 0 {
        let below = (depth - 1) as nat;
        if commit.parents.len() == 0 {
            assert(walk_below(commit.parents, 0, below) =~= Seq::empty());
        } else {
            assert(linear_history(commit.parents[0], below));
            lemma_linear_walk_bound(commit.parents[0], below);
            assert(walk_below(commit.parents, 0, below) =~= Seq::empty());
            assert(walk_below(commit.parents, 1, below) =~= parents_walk(commit.parents[0], below));
        }
    }
}

/// The hashes that a scan tracks for a branch begin with the tip. Where the
/// build depth is at least 1 and the history has no merge within reach, they
/// are no more than the build depth.
pub proof fn lemma_scan_hashes(tip: GitCommitView, build_depth: u8)
    ensures
        ids_of(scan_walk(tip, build_depth)).len() >= 1,
        ids_of(scan_walk(tip, build_depth))[0] == tip.id,
        build_depth >= 1 && linear_history(tip, (build_depth - 1) as nat) ==> ids_of(
            scan_walk(tip, build_depth),
        ).len() <= build_depth,
{
    if build_depth >= 1 && linear_history(tip, (build_depth - 1) as nat) {
        lemma_linear_walk_bound(tip, (build_depth - 1) as nat);
    }
}

/// The name of the checkout directory of the repository at `url`: the URL
/// with `_` in place of every `/` and `:`.
pub open spec fn checkout_name_of(url: Seq<char>) -> Seq<char> {
    with_char_replaced(with_char_replaced(url, '/', '_'), ':', '_')
}

/// The name of the checkout directory of the repository at `url`.
pub fn checkout_name(url: &str) -> (r: String)
    ensures
        r@ == checkout_name_of(url@),
{
    let a = replace_char(url, '/', '_');
    replace_char(a.as_str(), ':', '_')
}

/// The URL from which the repository at `url` is cloned: with the
/// credentials before the host where there are any.
pub open spec fn clone_url_of(url: Seq<char>, credentials: Option<Seq<char>>) -> Seq<char> {
    match credentials {
        Some(c) => "https://"@ + c + "@"@ + url,
        None => "https://"@ + url,
    }
}

/// The name of a branch, as the key by which branches are found.
pub open spec fn name_of() -> spec_fn((Seq<char>, Seq<Seq<char>>)) -> Seq<char> {
    |b: (Seq<char>, Seq<Seq<char>>)| b.0
}

/// The position of `name` among the names of `branches`, or their number
/// where it is not among them.
pub open spec fn branch_index(branches: Seq<(Seq<char>, Seq<Seq<char>>)>, name: Seq<char>) -> int {
    first_position(branches.map_values(name_of()), name)
}

/// The branches of a repository that was not scanned yet: one entry for each
/// of `names`, in the order in which they first occur, each without hashes.
pub open spec fn fresh_branches(names: Seq<Seq<char>>) -> Seq<(Seq<char>, Seq<Seq<char>>)>
    decreases names.len(),
{
    if names.len() == 0 {
        Seq::empty()
    } else {
        let before = fresh_branches(names.drop_last());
        if branch_index(before, names.last()) < before.len() {
            before
        } else {
            before.push((names.last(), Seq::empty()))
        }
    }
}

impl RepoInfo {
    /// `other` differs from this node in its commits at most.
    pub open spec fn same_but_commits(&self, other: &RepoInfo) -> bool {
        &&& self.repo == other.repo
        &&& self.flake_url == other.flake_url
        &&& self.checkout_path == other.checkout_path
        &&& self.branch_commit_hashes == other.branch_commit_hashes
        &&& self.status == other.status
        &&& self.credentials == other.credentials
    }

    /// `other` differs from this node in its status at most.
    pub open spec fn same_but_status(&self, other: &RepoInfo) -> bool {
        &&& self.repo == other.repo
        &&& self.flake_url == other.flake_url
        &&& self.checkout_path == other.checkout_path
        &&& self.branch_commit_hashes == other.branch_commit_hashes
        &&& self.commits == other.commits
        &&& self.credentials == other.credentials
    }

    /// A node that is well formed stays so where only its commits change and
    /// no hash is registered twice.
    pub proof fn lemma_wf_with_commits(&self, other: &RepoInfo)
        requires
            self.wf(),
            self.same_but_commits(other),
            hashes_unique(other.commits_view()),
        ensures
            other.wf(),
    {
        assert(other.branches_view() == self.branches_view());
        assert forall|name: Seq<char>| other.watches(name) implies branch_index(
            other.branches_view(),
            name,
        ) < other.branches_view().len() by {
            assert(self.watches(name));
        }
    }

    /// The commits seen so far.
    pub open spec fn commits_view(&self) -> Seq<CommitView> {
        commits_view(self.commits@)
    }

    /// The hashes tracked per branch.
    pub open spec fn branches_view(&self) -> Seq<(Seq<char>, Seq<Seq<char>>)> {
        branches_view(self.branch_commit_hashes@)
    }

    /// The hashes tracked for the branch `name`; `None` where the branch is
    /// not watched.
    pub open spec fn hashes_of(&self, name: Seq<char>) -> Option<Seq<Seq<char>>> {
        let k = branch_index(self.branches_view(), name);
        if k < self.branches_view().len() {
            Some(self.branches_view()[k].1)
        } else {
            None
        }
    }

    /// Whether the branch `name` is watched.
    pub open spec fn watches(&self, name: Seq<char>) -> bool {
        strings_view(self.repo.branches@).contains(name)
    }

    /// What holds of every repository node: no hash is registered twice, the
    /// tracked branches are the watched ones, each once, and the flake URL
    /// belongs to the configured URL.
    pub open spec fn wf(&self) -> bool {
        &&& hashes_unique(self.commits_view())
        &&& self.flake_url@ == repo_flake_url(self.repo.url@)
        &&& forall|i: int, j: int|
            0 <= i < j < self.branches_view().len() ==> self.branches_view()[i].0
                != self.branches_view()[j].0
        &&& forall|i: int|
            0 <= i < self.branches_view().len() ==> self.watches(
                (#[trigger] self.branches_view()[i]).0,
            )
        &&& forall|name: Seq<char>|
            self.watches(name) ==> branch_index(self.branches_view(), name)
                < self.branches_view().len()
    }

    /// This is the node of the repository `repo` before it is opened: well
    /// formed, idle, without commits, with one entry without hashes for each
    /// watched branch, and with the credentials without the white space
    /// around them.
    pub open spec fn fresh(
        &self,
        repo: Repo,
        checkout_path: String,
        credentials: Option<String>,
    ) -> bool {
        &&& self.wf()
        &&& self.repo == repo
        &&& self.checkout_path == checkout_path
        &&& self.status == RepoStatus::Idle
        &&& self.commits@.len() == 0
        &&& self.branches_view() == fresh_branches(strings_view(repo.branches@))
        &&& match credentials {
            Some(c) => self.credentials is Some && self.credentials->Some_0@ == trimmed(c@),
            None => self.credentials is None,
        }
    }

    /// The node of a repository that was not opened yet. `credentials` is
    /// what the credentials file holds, if it was read.
    pub fn new(repo: Repo, checkout_path: String, credentials: Option<String>) -> (r: RepoInfo)
        ensures
            r.fresh(repo, checkout_path, credentials),
    {
        let mut branch_commit_hashes: Vec<(String, Vec<String>)> = Vec::new();
        let mut i: usize = 0;
        assert(branches_view(branch_commit_hashes@) =~= fresh_branches(
            strings_view(repo.branches@).subrange(0, 0),
        ));
        while i < repo.branches.len()
            invariant
                i <= repo.branches.len(),
                forall|a: int, b: int|
                    0 <= a < b < branch_commit_hashes@.len() ==> branches_view(
                        branch_commit_hashes@,
                    )[a].0 != branches_view(branch_commit_hashes@)[b].0,
                forall|a: int|
                    0 <= a < branch_commit_hashes@.len() ==> strings_view(repo.branches@).contains(
                        (#[trigger] branches_view(branch_commit_hashes@)[a]).0,
                    ),
                branches_view(branch_commit_hashes@) == fresh_branches(
                    strings_view(repo.branches@).subrange(0, i as int),
                ),
                forall|k: int|
                    0 <= k < i ==> branch_index(
                        branches_view(branch_commit_hashes@),
                        #[trigger] strings_view(repo.branches@)[k],
                    ) < branch_commit_hashes@.len(),
            decreases repo.branches.len() - i,
        {
            let ghost bv = branches_view(branch_commit_hashes@);
            let name = &repo.branches[i];
            let mut found = false;
            let mut j: usize = 0;
            while j < branch_commit_hashes.len() && !found
                invariant
                    j <= branch_commit_hashes.len(),
                    bv == branches_view(branch_commit_hashes@),
                    !found ==> forall|a: int| 0 <= a < j ==> bv[a].0 != name@,
                    found ==> exists|a: int| 0 <= a < bv.len() && bv[a].0 == name@,
                decreases branch_commit_hashes.len() - j + if found { 0int } else { 1int },
            {
                if str_eq(branch_commit_hashes[j].0.as_str(), name.as_str()) {
                    assert(bv[j as int].0 == name@);
                    found = true;
                } else {
                    j += 1;
                }
            }
            proof {
                lemma_first_position_mapped(bv, name_of(), name@);
                assert(strings_view(repo.branches@)[i as int] == name@);
                let now = strings_view(repo.branches@).subrange(0, i + 1);
                assert(now.drop_last() =~= strings_view(repo.branches@).subrange(0, i as int));
                assert(now.last() == name@);
                assert(found == (branch_index(bv, name@) < bv.len()));
            }
            if !found {
                branch_commit_hashes.push((name.clone(), Vec::new()));
                proof {
                    let nv = branches_view(branch_commit_hashes@);
                    assert(strings_view(Seq::<String>::empty()) =~= Seq::empty());
                    let last = branch_commit_hashes@.last();
                    assert(last.0@ == name@ && last.1@ =~= Seq::<String>::empty());
                    assert(nv.last() == (name@, Seq::<Seq<char>>::empty()));
                    assert(nv =~= bv.push((name@, Seq::empty())));
                    assert forall|k: int| 0 <= k < i + 1 implies branch_index(
                        nv,
                        #[trigger] strings_view(repo.branches@)[k],
                    ) < nv.len() by {
                        let n = strings_view(repo.branches@)[k];
                        lemma_first_position_mapped(bv, name_of(), n);
                        lemma_first_position_mapped(nv, name_of(), n);
                        if k < i {
                            let b = branch_index(bv, n);
                            assert(nv[b].0 == n);
                        } else {
                            assert(nv[nv.len() - 1].0 == n);
                        }
                    }
                }
            }
            i += 1;
        }
        let credentials = match credentials {
            Some(c) => Some(trim(c.as_str())),
            None => None,
        };
        let mut flake_url = String::from_str("git+https://");
        flake_url.append(repo.url.as_str());
        assert(strings_view(repo.branches@).subrange(0, i as int) =~= strings_view(
            repo.branches@,
        ));
        let r = RepoInfo {
            flake_url,
            repo,
            checkout_path,
            branch_commit_hashes,
            commits: Vec::new(),
            status: RepoStatus::Idle,
            credentials,
        };
        proof {
            assert(r.commits_view() =~= Seq::empty());
            assert forall|name: Seq<char>| r.watches(name) implies branch_index(
                r.branches_view(),
                name,
            ) < r.branches_view().len() by {
                let k = choose|k: int|
                    0 <= k < strings_view(r.repo.branches@).len() && strings_view(
                        r.repo.branches@,
                    )[k] == name;
                assert(strings_view(r.repo.branches@)[k] == name);
            }
        }
        r
    }

    /// Whether the remote branch `branch` is watched: whether its name
    /// without `origin/` in front is one of the configured branches. The
    /// tip of a branch that is not watched need not be read.
    pub fn watches_branch(&self, branch: &str) -> (r: bool)
        ensures
            r == self.watches(short_branch_name(branch@)),
    {
        let name = strip_prefix(branch, "origin/");
        contains_string(&self.repo.branches, name.as_str())
    }

    /// The URL from which the repository is cloned.
    pub fn clone_url(&self) -> (r: String)
        ensures
            r@ == clone_url_of(
                self.repo.url@,
                match self.credentials {
                    Some(c) => Some(c@),
                    None => None,
                },
            ),
    {
        let mut r = String::from_str("https://");
        match &self.credentials {
            Some(c) => {
                r.append(c.as_str());
                r.append("@");
            },
            None => {},
        }
        r.append(self.repo.url.as_str());
        r
    }

    /// The node of `commit`: the one registered under its hash where there is
    /// one, else a fresh node at the end of the registry. Returns the position
    /// of the node and whether it was created by this call, which is when the
    /// discovery of its targets is to be launched.
    pub fn get_or_create_commit(&mut self, commit: &GitCommit) -> (r: (usize, bool))
        requires
            old(self).wf(),
        ensures
            final(self).wf(),
            final(self).commits_view() == registered(
                old(self).commits_view(),
                old(self).repo.url@,
                commit@,
            ),
            r.0 == hash_index(final(self).commits_view(), commit@.id),
            r.0 < final(self).commits@.len(),
            r.1 == (hash_index(old(self).commits_view(), commit@.id) == old(self).commits@.len()),
            final(self).repo == old(self).repo,
            final(self).flake_url == old(self).flake_url,
            final(self).checkout_path == old(self).checkout_path,
            final(self).branch_commit_hashes == old(self).branch_commit_hashes,
            final(self).status == old(self).status,
            final(self).credentials == old(self).credentials,
    {
        let ghost cv = self.commits_view();
        let mut i: usize = 0;
        while i < self.commits.len()
            invariant
                i <= self.commits.len(),
                cv == self.commits_view(),
                *self == *old(self),
                self.wf(),
                forall|j: int| 0 <= j < i ==> cv[j].hash != commit@.id,
            decreases self.commits.len() - i,
        {
            if str_eq(self.commits[i].hash.as_str(), commit.id.as_str()) {
                proof {
                    lemma_first_position_mapped(cv, hash_of(), commit@.id);
                    assert(cv[i as int].hash == commit@.id);
                }
                return (i, false);
            }
            i += 1;
        }
        proof {
            lemma_first_position_mapped(cv, hash_of(), commit@.id);
        }
        let node = CommitInfo::new(self, commit);
        self.commits.push(node);
        proof {
            let nv = self.commits_view();
            assert(nv =~= cv.push(fresh_commit(self.repo.url@, commit@)));
            lemma_first_position_mapped(nv, hash_of(), commit@.id);
            assert(nv[i as int].hash == commit@.id);
            assert(self.branches_view() == old(self).branches_view());
            assert(hashes_unique(nv)) by {
                assert forall|a: int, b: int| 0 <= a < b < nv.len() implies nv[a].hash
                    != nv[b].hash by {
                    if b < cv.len() {
                        assert(cv[a].hash != cv[b].hash);
                    } else {
                        assert(cv[a].hash != commit@.id);
                    }
                }
            }
            assert forall|name: Seq<char>| self.watches(name) implies branch_index(
                self.branches_view(),
                name,
            ) < self.branches_view().len() by {
                assert(old(self).watches(name));
            }
        }
        (i, true)
    }

    /// Walks the ancestors of `commit` to `depth` levels: all parents of a
    /// commit are registered and noted in `commits` before the walk goes on
    /// below each of them, one level less deep.
    pub fn parse_commit_parents(
        &mut self,
        commit: &GitCommit,
        depth: u8,
        commits: &mut Vec<usize>,
    )
        requires
            old(self).wf(),
        ensures
            final(self).wf(),
            old(self).same_but_commits(final(self)),
            final(self).commits_view() == registered_all(
                old(self).commits_view(),
                old(self).repo.url@,
                parents_walk(commit@, depth as nat),
            ),
            final(commits)@.len() == old(commits)@.len() + parents_walk(commit@, depth as nat).len(),
            forall|k: int| 0 <= k < old(commits)@.len() ==> final(commits)@[k] == old(commits)@[k],
            forall|k: int|
                0 <= k < parents_walk(commit@, depth as nat).len() ==> {
                    let handle = #[trigger] final(commits)@[old(commits)@.len() + k];
                    handle < final(self).commits@.len() && final(self).commits_view()[handle as int].hash
                        == parents_walk(commit@, depth as nat)[k].id
                },
        decreases depth,
    {
        if depth == 0 {
            return ;
        }
        let ghost cv0 = self.commits_view();
        let ghost url = self.repo.url@;
        let ghost out0 = commits@;
        let ghost parents = commit@.parents;
        assert(parents == crate::commit::git_commits_view(commit.parents@));
        let mut i: usize = 0;
        while i < commit.parents.len()
            invariant
                i <= commit.parents.len(),
                parents == crate::commit::git_commits_view(commit.parents@),
                url == self.repo.url@,
                self.wf(),
                old(self).same_but_commits(self),
                self.commits_view() == registered_all(cv0, url, parents.subrange(0, i as int)),
                commits@.len() == out0.len() + i,
                forall|k: int| 0 <= k < out0.len() ==> commits@[k] == out0[k],
                forall|k: int|
                    0 <= k < i ==> (#[trigger] commits@[out0.len() + k]) < self.commits@.len()
                        && self.commits_view()[commits@[out0.len() + k] as int].hash
                        == parents[k].id,
            decreases commit.parents.len() - i,
        {
            let ghost cv = self.commits_view();
            let ghost out = commits@;
            let r = self.get_or_create_commit(&commit.parents[i]);
            commits.push(r.0);
            proof {
                let now = self.commits_view();
                assert(commit.parents@[i as int]@ == parents[i as int]);
                assert(parents.subrange(0, i + 1).drop_last() =~= parents.subrange(0, i as int));
                assert(parents.subrange(0, i + 1).last() == parents[i as int]);
                lemma_first_position_mapped(now, hash_of(), parents[i as int].id);
                assert forall|k: int| 0 <= k < i + 1 implies (#[trigger] commits@[out0.len() + k])
                    < self.commits@.len() && now[commits@[out0.len() + k] as int].hash
                    == parents[k].id by {
                    if k < i {
                        assert(commits@[out0.len() + k] == out[out0.len() + k]);
                        assert(now[out[out0.len() + k] as int] == cv[out[out0.len() + k] as int]);
                    }
                }
            }
            i += 1;
        }
        assert(parents.subrange(0, i as int) =~= parents);
        let ghost n = parents.len();
        let ghost below = (depth - 1) as nat;
        let mut i: usize = 0;
        assert(parents + walk_below(parents, 0, below) =~= parents);
        while i < commit.parents.len()
            invariant
                i <= commit.parents.len(),
                parents == crate::commit::git_commits_view(commit.parents@),
                n == parents.len(),
                depth > 0,
                below == (depth - 1) as nat,
                url == self.repo.url@,
                self.wf(),
                old(self).same_but_commits(self),
                self.commits_view() == registered_all(
                    cv0,
                    url,
                    parents + walk_below(parents, i as nat, below),
                ),
                commits@.len() == out0.len() + n + walk_below(parents, i as nat, below).len(),
                forall|k: int| 0 <= k < out0.len() ==> commits@[k] == out0[k],
                forall|k: int|
                    0 <= k < n + walk_below(parents, i as nat, below).len() ==> (
                    #[trigger] commits@[out0.len() + k]) < self.commits@.len()
                        && self.commits_view()[commits@[out0.len() + k] as int].hash == (parents
                        + walk_below(parents, i as nat, below))[k].id,
            decreases commit.parents.len() - i,
        {
            let ghost cv = self.commits_view();
            let ghost out = commits@;
            let ghost sofar = parents + walk_below(parents, i as nat, below);
            let ghost step = parents_walk(parents[i as int], below);
            assert(commit.parents@[i as int]@ == parents[i as int]);
            self.parse_commit_parents(&commit.parents[i], depth - 1, commits);
            proof {
                let now = self.commits_view();
                lemma_registered_all_concat(cv0, url, sofar, step);
                lemma_registered_all_grows(cv, url, step);
                assert(sofar + step =~= parents + walk_below(parents, (i + 1) as nat, below));
                assert forall|k: int| 0 <= k < (sofar + step).len() implies (
                #[trigger] commits@[out0.len() + k]) < self.commits@.len() && now[commits@[out0.len()
                    + k] as int].hash == (sofar + step)[k].id by {
                    if k < sofar.len() {
                        assert(commits@[out0.len() + k] == out[out0.len() + k]);
                        let j = out[out0.len() + k] as int;
                        assert(now.subrange(0, cv.len() as int)[j] == cv[j]);
                    } else {
                        assert(commits@[out.len() + (k - sofar.len())] == commits@[out0.len() + k]);
                    }
                }
            }
            i += 1;
        }
    }

    /// What a scan of the remote branch `branch` with tip `tip` makes of this
    /// node: `after`. A branch that is not watched changes nothing. For a
    /// watched branch the commits met in the scan are registered and their
    /// hashes replace those tracked for the branch; the other branches keep
    /// theirs.
    pub open spec fn scanned(&self, after: &RepoInfo, branch: Seq<char>, tip: GitCommitView) -> bool {
        &&& after.wf()
        &&& after.repo == self.repo
        &&& after.flake_url == self.flake_url
        &&& after.checkout_path == self.checkout_path
        &&& after.status == self.status
        &&& after.credentials == self.credentials
        &&& !self.watches(short_branch_name(branch)) ==> *after == *self
        &&& after.branches_view().len() == self.branches_view().len()
        &&& forall|i: int|
            0 <= i < self.branches_view().len() ==> (#[trigger] after.branches_view()[i]).0
                == self.branches_view()[i].0
        &&& after.commits_view() == if self.watches(short_branch_name(branch)) {
            registered_all(
                self.commits_view(),
                self.repo.url@,
                scan_walk(tip, self.repo.build_depth),
            )
        } else {
            self.commits_view()
        }
        &&& forall|name: Seq<char>|
            #[trigger] after.hashes_of(name) == if name == short_branch_name(branch)
                && self.watches(name) {
                Some(ids_of(scan_walk(tip, self.repo.build_depth)))
            } else {
                self.hashes_of(name)
            }
    }

    /// A node that is well formed stays so where only its status changes.
    pub proof fn lemma_wf_with_status(&self, other: &RepoInfo)
        requires
            self.wf(),
            self.same_but_status(other),
        ensures
            other.wf(),
    {
        assert(other.branches_view() == self.branches_view());
        assert(other.commits_view() == self.commits_view());
        assert forall|name: Seq<char>| other.watches(name) implies branch_index(
            other.branches_view(),
            name,
        ) < other.branches_view().len() by {
            assert(self.watches(name));
        }
    }

    /// Takes in what a scan found of the remote branch `branch` with tip
    /// `tip`. A branch that is not watched changes nothing. For a watched
    /// branch the tip and then its ancestors, to one level less than the build
    /// depth, are registered, and their hashes replace those tracked for the
    /// branch. Returns the positions of the commits that this call created:
    /// the discovery of the targets of each is to be launched.
    pub fn scan_branch(&mut self, branch: &str, tip: &GitCommit) -> (created: Vec<usize>)
        requires
            old(self).wf(),
        ensures
            old(self).scanned(final(self), branch@, tip@),
            created@ == Seq::new(
                (final(self).commits@.len() - old(self).commits@.len()) as nat,
                |k: int| (old(self).commits@.len() + k) as usize,
            ),
    {
        let mut created: Vec<usize> = Vec::new();
        let name = strip_prefix(branch, "origin/");
        let ghost bv = self.branches_view();
        let mut slot: usize = 0;
        while slot < self.branch_commit_hashes.len() && !str_eq(
            self.branch_commit_hashes[slot].0.as_str(),
            name.as_str(),
        )
            invariant
                slot <= self.branch_commit_hashes.len(),
                *self == *old(self),
                bv == self.branches_view(),
                forall|j: int| 0 <= j < slot ==> bv[j].0 != name@,
            decreases self.branch_commit_hashes.len() - slot,
        {
            slot += 1;
        }
        proof {
            lemma_first_position_mapped(bv, name_of(), name@);
            if slot < bv.len() {
                assert(bv[slot as int].0 == name@);
            }
            assert(branch_index(bv, name@) == slot);
        }
        if slot >= self.branch_commit_hashes.len() {
            assert(created@ =~= Seq::new(0nat, |k: int| (old(self).commits@.len() + k) as usize));
            return created;
        }
        assert(self.watches(name@));
        let first_new = self.commits.len();
        let ghost cv0 = self.commits_view();
        let ghost url = self.repo.url@;
        let ghost walk = parents_walk(
            tip@,
            if self.repo.build_depth == 0 {
                0nat
            } else {
                (self.repo.build_depth - 1) as nat
            },
        );
        let mut commits: Vec<usize> = Vec::new();
        let r = self.get_or_create_commit(tip);
        commits.push(r.0);
        let ghost cv1 = self.commits_view();
        let depth = if self.repo.build_depth == 0 {
            0
        } else {
            self.repo.build_depth - 1
        };
        self.parse_commit_parents(tip, depth, &mut commits);
        let ghost met = seq![tip@] + walk;
        proof {
            let now = self.commits_view();
            assert(seq![tip@].drop_last() =~= Seq::empty());
            assert(registered_all(cv0, url, seq![tip@].drop_last()) == cv0);
            assert(seq![tip@].last() == tip@);
            assert(cv1 == registered_all(cv0, url, seq![tip@]));
            lemma_registered_all_concat(cv0, url, seq![tip@], walk);
            lemma_registered_all_grows(cv1, url, walk);
            lemma_registered_all_grows(cv0, url, met);
            lemma_first_position_mapped(cv1, hash_of(), tip@.id);
            assert forall|k: int| 0 <= k < met.len() implies (#[trigger] commits@[k])
                < self.commits@.len() && now[commits@[k] as int].hash == met[k].id by {
                if k == 0 {
                    assert(now.subrange(0, cv1.len() as int)[r.0 as int] == cv1[r.0 as int]);
                } else {
                    assert(commits@[1 + (k - 1)] == commits@[k]);
                }
            }
        }
        let mut hashes: Vec<String> = Vec::new();
        let mut k: usize = 0;
        while k < commits.len()
            invariant
                k <= commits.len(),
                commits@.len() == met.len(),
                forall|j: int|
                    0 <= j < met.len() ==> (#[trigger] commits@[j]) < self.commits@.len()
                        && self.commits_view()[commits@[j] as int].hash == met[j].id,
                strings_view(hashes@) == ids_of(met.subrange(0, k as int)),
            decreases commits.len() - k,
        {
            let hash = self.commits[commits[k]].hash.clone();
            proof {
                let j = commits@[k as int] as int;
                assert(self.commits_view()[j].hash == met[k as int].id);
                assert(self.commits_view()[j] == self.commits@[j]@);
                assert(hash@ == met[k as int].id);
            }
            let ghost h0 = hashes@;
            hashes.push(hash);
            assert(hashes@ == h0.push(hash));
            assert(met.subrange(0, k + 1) =~= met.subrange(0, k as int).push(met[k as int]));
            assert(strings_view(hashes@) =~= strings_view(h0).push(hash@));
            assert(ids_of(met.subrange(0, k as int).push(met[k as int])) =~= ids_of(
                met.subrange(0, k as int),
            ).push(met[k as int].id));
            assert(strings_view(hashes@) =~= ids_of(met.subrange(0, k + 1)));
            k += 1;
        }
        assert(met.subrange(0, k as int) =~= met);
        let ghost mid = *self;
        let entry_name = self.branch_commit_hashes[slot].0.clone();
        self.branch_commit_hashes.set(slot, (entry_name, hashes));
        let mut c: usize = first_new;
        while c < self.commits.len()
            invariant
                first_new <= c <= self.commits.len(),
                created@ == Seq::new((c - first_new) as nat, |k: int| (first_new + k) as usize),
            decreases self.commits.len() - c,
        {
            created.push(c);
            assert(created@ =~= Seq::new(
                (c + 1 - first_new) as nat,
                |k: int| (first_new + k) as usize,
            ));
            c += 1;
        }
        proof {
            let nv = self.branches_view();
            assert(nv =~= bv.update(slot as int, (name@, ids_of(met))));
            assert forall|i: int, j: int| 0 <= i < j < nv.len() implies nv[i].0 != nv[j].0 by {
                assert(bv[i].0 != bv[j].0);
            }
            assert forall|i: int| 0 <= i < nv.len() implies self.watches((#[trigger] nv[i]).0) by {
                assert(old(self).watches(bv[i].0));
            }
            assert forall|n: Seq<char>| #[trigger]
                self.hashes_of(n) == if n == short_branch_name(branch@) && old(self).watches(n) {
                    Some(ids_of(met))
                } else {
                    old(self).hashes_of(n)
                } by {
                lemma_first_position_mapped(bv, name_of(), n);
                lemma_first_position_mapped(nv, name_of(), n);
                let a = branch_index(bv, n);
                let b = branch_index(nv, n);
                if a < bv.len() {
                    assert(nv[a].0 == n);
                }
                if b < nv.len() {
                    assert(bv[b].0 == n);
                }
                assert(a == b);
            }
            assert forall|n: Seq<char>| self.watches(n) implies branch_index(nv, n)
                < nv.len() by {
                assert(old(self).watches(n));
                lemma_first_position_mapped(bv, name_of(), n);
                lemma_first_position_mapped(nv, name_of(), n);
                let a = branch_index(bv, n);
                assert(nv[a].0 == n);
            }
        }
        created
    }
}

} // verus!
