//! Commits of a repository and the targets found in each.

use vstd::prelude::*;
use vstd::utf8::{decode_utf8, valid_utf8};
use crate::json::{json_document, parse_manifest};
use crate::manifest::{entries_view, Manifest, ManifestTree};
use crate::package::{
    derivation_at, system_config_at, target_url, targets_view, NixosConfigPackage, Package,
    PackageEnum, TargetView,
};
use crate::repo::RepoInfo;
use crate::status::{CommitBuildStatus, PackageBuildStatus};
use crate::text::{chars_of, first_line, first_line_of, trim_chars, trimmed};
use crate::tool::{list_arguments, list_command, strings_view, ToolOutput, ToolOutputView};

verus! {

/// What a checkout says of one commit: its id in hexadecimal, its message
/// (`None` where it is not valid text), its time in seconds since the epoch,
/// and its parents as far as they were read.
#[derive(Debug)]
pub struct GitCommit {
    pub id: String,
    pub message: Option<String>,
    pub seconds: i64,
    pub parents: Vec<GitCommit>,
}

/// The mathematical value of a `GitCommit`.
pub struct GitCommitView {
    pub id: Seq<char>,
    pub message: Option<Seq<char>>,
    pub seconds: i64,
    pub parents: Seq<GitCommitView>,
}

/// The value of each commit of a list, in order.
pub open spec fn git_commits_view(commits: Seq<GitCommit>) -> Seq<GitCommitView>
    decreases commits,
{
    Seq::new(
        commits.len(),
        |i: int|
            if 0 <= i < commits.len() {
                commits[i]@
            } else {
                GitCommitView { id: Seq::empty(), message: None, seconds: 0, parents: Seq::empty() }
            },
    )
}

impl View for GitCommit {
    type V = GitCommitView;

    open spec fn view(&self) -> GitCommitView
        decreases self,
    {
        GitCommitView {
            id: self.id@,
            message: match self.message {
                Some(m) => Some(m@),
                None => None,
            },
            seconds: self.seconds,
            parents: git_commits_view(self.parents@),
        }
    }
}

/// Why the targets of a commit could not be listed.
#[derive(Clone, Copy, Debug, PartialEq, Eq, Structural)]
pub enum ListError {
    /// The tool did not end with exit code 0.
    ToolFailed,
    /// The tool printed something that is not UTF-8.
    NotUtf8,
    /// The tool printed something that is not JSON.
    InvalidJson,
    /// The tool printed JSON that is not an object.
    NoObject,
}

impl ListError {
    /// The error in words.
    pub fn message(&self) -> (r: &'static str)
        ensures
            r@ == match *self {
                ListError::ToolFailed => "Failed to list packages in flake"@,
                ListError::NotUtf8 => "Package list is not valid UTF-8"@,
                ListError::InvalidJson => "Package list is not valid JSON"@,
                ListError::NoObject => "No packages found in flake"@,
            },
    {
        match self {
            ListError::ToolFailed => "Failed to list packages in flake",
            ListError::NotUtf8 => "Package list is not valid UTF-8",
            ListError::InvalidJson => "Package list is not valid JSON",
            ListError::NoObject => "No packages found in flake",
        }
    }
}

/// The message shown for a commit: the first line of the trimmed message,
/// itself trimmed, with a stand-in where there is no message.
pub open spec fn shown_message(message: Option<Seq<char>>) -> Seq<char> {
    let raw = match message {
        Some(m) => m,
        None => "<no message>"@,
    };
    trimmed(first_line(trimmed(raw)))
}

/// The URL that pins the flake of a repository to one commit.
pub open spec fn commit_flake_url(repo_url: Seq<char>, hash: Seq<char>) -> Seq<char> {
    "git+https://"@ + repo_url + "?rev="@ + hash
}

/// A commit as it is first registered: idle and without targets.
pub open spec fn fresh_commit(repo_url: Seq<char>, commit: GitCommitView) -> CommitView {
    CommitView {
        hash: commit.id,
        message: shown_message(commit.message),
        flake_url: commit_flake_url(repo_url, commit.id),
        status: CommitBuildStatus::Idle,
        packages: Seq::empty(),
        unix_secs: commit.seconds,
    }
}

/// What a run of the listing command yields for the flake at `commit_url`:
/// the targets of the printed manifest, or why there are none.
pub open spec fn listed_targets(output: ToolOutputView, commit_url: Seq<char>) -> Result<
    Seq<TargetView>,
    ListError,
> {
    if !output.succeeded() {
        Err(ListError::ToolFailed)
    } else if !valid_utf8(output.stdout) {
        Err(ListError::NotUtf8)
    } else {
        match json_document(decode_utf8(output.stdout)) {
            None => Err(ListError::InvalidJson),
            Some(ManifestTree::Object(entries)) => Ok(
                targets_in(entries, Seq::empty(), commit_url),
            ),
            Some(_) => Err(ListError::NoObject),
        }
    }
}

/// The targets of `listed` once the build of each was asked for.
pub open spec fn asked_targets(listed: Seq<TargetView>, supported: Seq<Seq<char>>) -> Seq<
    TargetView,
> {
    listed.map_values(|t: TargetView| t.after_build(supported))
}

/// One commit of a repository, with the targets found in it.
#[derive(Debug)]
pub struct CommitInfo {
    pub hash: String,
    pub message: String,
    pub flake_url: String,
    pub status: CommitBuildStatus,
    pub packages: Vec<PackageEnum>,
    pub unix_secs: i64,
}

/// The mathematical value of a `CommitInfo`.
pub struct CommitView {
    pub hash: Seq<char>,
    pub message: Seq<char>,
    pub flake_url: Seq<char>,
    pub status: CommitBuildStatus,
    pub packages: Seq<TargetView>,
    pub unix_secs: i64,
}

impl View for CommitInfo {
    type V = CommitView;

    open spec fn view(&self) -> CommitView {
        CommitView {
            hash: self.hash@,
            message: self.message@,
            flake_url: self.flake_url@,
            status: self.status,
            packages: targets_view(self.packages@),
            unix_secs: self.unix_secs,
        }
    }
}

/// The path of the child under `key` of the subtree at `path`: the two joined
/// by a `.`, or the key alone at the root.
pub open spec fn child_path(path: Seq<char>, key: Seq<char>) -> Seq<char> {
    if path.len() == 0 {
        key
    } else {
        path.push('.') + key
    }
}

/// The targets of the keyed subtree `entries` found at `path`, depth first and
/// in the order of the keys: the subtree itself where it is a package, else
/// itself where it is a system configuration, else the targets of its keyed
/// children.
pub open spec fn targets_in(
    entries: Seq<(Seq<char>, ManifestTree)>,
    path: Seq<char>,
    commit_url: Seq<char>,
) -> Seq<TargetView>
    decreases entries, 1nat, 0nat,
{
    if derivation_at(entries, path, commit_url) is Some {
        seq![TargetView::Derivation(derivation_at(entries, path, commit_url)->Some_0)]
    } else if system_config_at(entries, path, commit_url) is Some {
        seq![TargetView::NixosConfig(system_config_at(entries, path, commit_url)->Some_0)]
    } else {
        targets_below(entries, entries.len(), path, commit_url)
    }
}

/// The targets of the first `n` children of the subtree `entries` at `path`.
/// Children that are not keyed subtrees contribute nothing.
pub open spec fn targets_below(
    entries: Seq<(Seq<char>, ManifestTree)>,
    n: nat,
    path: Seq<char>,
    commit_url: Seq<char>,
) -> Seq<TargetView>
    decreases entries, 0nat, n,
{
    if n == 0 || n > entries.len() {
        Seq::empty()
    } else {
        targets_below(entries, (n - 1) as nat, path, commit_url) + targets_of_child(
            entries,
            n - 1,
            path,
            commit_url,
        )
    }
}

/// The targets of the child at position `i` of the subtree `entries` at
/// `path`.
pub open spec fn targets_of_child(
    entries: Seq<(Seq<char>, ManifestTree)>,
    i: int,
    path: Seq<char>,
    commit_url: Seq<char>,
) -> Seq<TargetView>
    decreases entries, 0nat, 0nat,
{
    if 0 <= i < entries.len() {
        match entries[i].1 {
            ManifestTree::Object(sub) => targets_in(
                sub,
                child_path(path, entries[i].0),
                commit_url,
            ),
            _ => Seq::empty(),
        }
    } else {
        Seq::empty()
    }
}

/// Every target found in a manifest is idle, and its URL is the URL of the
/// commit, a `#` and the path of the target.
pub proof fn lemma_targets_in(
    entries: Seq<(Seq<char>, ManifestTree)>,
    path: Seq<char>,
    commit_url: Seq<char>,
)
    ensures
        forall|k: int|
            0 <= k < targets_in(entries, path, commit_url).len() ==> {
                let t = #[trigger] targets_in(entries, path, commit_url)[k];
                t.status() is Idle && t.flake_url() == target_url(commit_url, t.path())
            },
    decreases entries, 1nat, 0nat,
{
    if derivation_at(entries, path, commit_url) is None && system_config_at(
        entries,
        path,
        commit_url,
    ) is None {
        lemma_targets_below(entries, entries.len(), path, commit_url);
    }
}

/// Every target found below the first `n` children of a subtree is idle, and
/// its URL is the URL of the commit, a `#` and the path of the target.
pub proof fn lemma_targets_below(
    entries: Seq<(Seq<char>, ManifestTree)>,
    n: nat,
    path: Seq<char>,
    commit_url: Seq<char>,
)
    ensures
        forall|k: int|
            0 <= k < targets_below(entries, n, path, commit_url).len() ==> {
                let t = #[trigger] targets_below(entries, n, path, commit_url)[k];
                t.status() is Idle && t.flake_url() == target_url(commit_url, t.path())
            },
    decreases entries, 0nat, n,
{
    if n > 0 && n <= entries.len() {
        lemma_targets_below(entries, (n - 1) as nat, path, commit_url);
        match entries[n - 1].1 {
            ManifestTree::Object(sub) => {
                lemma_targets_in(sub, child_path(path, entries[n - 1].0), commit_url);
            },
            _ => {},
        }
        let before = targets_below(entries, (n - 1) as nat, path, commit_url);
        let child = targets_of_child(entries, n - 1, path, commit_url);
        let all = targets_below(entries, n, path, commit_url);
        assert(all == before + child);
        assert forall|k: int| 0 <= k < all.len() implies {
            let t = #[trigger] all[k];
            t.status() is Idle && t.flake_url() == target_url(commit_url, t.path())
        } by {
            if k < before.len() {
                assert(all[k] == before[k]);
            } else {
                assert(all[k] == child[k - before.len()]);
            }
        }
    }
}

/// Listing the same manifest twice gives the same targets in the same order,
/// and so the same kinds and paths as often.
pub proof fn lemma_listing_is_a_function(
    first: Seq<TargetView>,
    second: Seq<TargetView>,
    entries: Seq<(Seq<char>, ManifestTree)>,
    commit_url: Seq<char>,
)
    requires
        first == targets_in(entries, Seq::empty(), commit_url),
        second == targets_in(entries, Seq::empty(), commit_url),
    ensures
        first == second,
        first.to_multiset() == second.to_multiset(),
{
}

impl CommitInfo {
    /// The node of `commit` in `repo`, idle and without targets.
    pub fn new(repo: &RepoInfo, commit: &GitCommit) -> (r: CommitInfo)
        ensures
            r@ == fresh_commit(repo.repo.url@, commit@),
    {
        let raw = match &commit.message {
            Some(m) => chars_of(m.as_str()),
            None => chars_of("<no message>"),
        };
        let whole = trim_chars(&raw);
        let line = first_line_of(&chars_of(whole.as_str()));
        let message = trim_chars(&line);
        let mut flake_url = String::from_str("git+https://");
        flake_url.append(repo.repo.url.as_str());
        flake_url.append("?rev=");
        flake_url.append(commit.id.as_str());
        let r = CommitInfo {
            message,
            flake_url,
            hash: commit.id.clone(),
            packages: Vec::new(),
            status: CommitBuildStatus::Idle,
            unix_secs: commit.seconds,
        };
        assert(targets_view(r.packages@) =~= Seq::empty());
        r
    }

    /// Begins the discovery of the targets of this commit: the commit is
    /// getting its targets, and the arguments of the listing command are
    /// returned. The command is to run under one permit of the build pool.
    pub fn build(&mut self) -> (command: Vec<String>)
        ensures
            final(self)@ == (CommitView { status: CommitBuildStatus::GettingPackages, ..old(self)@ }),
            strings_view(command@) == list_arguments(old(self).flake_url@),
    {
        self.status = CommitBuildStatus::GettingPackages;
        list_command(self.flake_url.as_str())
    }

    /// Reads what the listing command left behind: the targets of the printed
    /// manifest, each idle, or the reason why there are none.
    pub fn get_pkgs_list(&self, output: &ToolOutput) -> (r: Result<Vec<PackageEnum>, ListError>)
        ensures
            match r {
                Ok(pkgs) => listed_targets(output@, self.flake_url@) == Ok::<
                    Seq<TargetView>,
                    ListError,
                >(targets_view(pkgs@)),
                Err(e) => listed_targets(output@, self.flake_url@) == Err::<
                    Seq<TargetView>,
                    ListError,
                >(e),
            },
    {
        if !output.succeeded() {
            return Err(ListError::ToolFailed);
        }
        let text = match core::str::from_utf8(output.stdout.as_slice()) {
            Ok(t) => t,
            Err(_) => { return Err(ListError::NotUtf8); },
        };
        let manifest = match parse_manifest(text) {
            Some(m) => m,
            None => { return Err(ListError::InvalidJson); },
        };
        match manifest {
            Manifest::Object(entries) => {
                let mut pkgs: Vec<PackageEnum> = Vec::new();
                assert(targets_view(pkgs@) =~= Seq::empty());
                Self::_parse_pkgs_value(&entries, String::new(), self, &mut pkgs);
                assert(targets_view(pkgs@) =~= targets_in(
                    entries_view(entries@),
                    Seq::empty(),
                    self.flake_url@,
                ));
                Ok(pkgs)
            },
            _ => Err(ListError::NoObject),
        }
    }

    /// Ends the discovery. Where targets were listed, all of them are
    /// installed behind those already there and the build of each is asked
    /// for; where listing failed, the targets stay as they were. Either way
    /// the commit is idle again. Returns the positions of the installed
    /// targets that now wait for a permit, in rising order: one build is to
    /// be queued for each.
    pub fn install(
        &mut self,
        listed: Result<Vec<PackageEnum>, ListError>,
        supported: &Vec<String>,
    ) -> (queued: Vec<usize>)
        ensures
            final(self)@ == (CommitView {
                status: CommitBuildStatus::Idle,
                packages: match listed {
                    Ok(pkgs) => old(self)@.packages + asked_targets(
                        targets_view(pkgs@),
                        strings_view(supported@),
                    ),
                    Err(_) => old(self)@.packages,
                },
                ..old(self)@
            }),
            forall|i: int, j: int| 0 <= i < j < queued@.len() ==> queued@[i] < queued@[j],
            forall|k: usize|
                queued@.contains(k) <==> old(self)@.packages.len() <= k
                    < final(self)@.packages.len() && final(self)@.packages[k as int].status()
                    is WaitingForBuild,
    {
        let mut queued: Vec<usize> = Vec::new();
        let ghost before = self@.packages;
        let base = self.packages.len();
        match listed {
            Ok(pkgs) => {
                let mut pkgs = pkgs;
                let ghost fresh = targets_view(pkgs@);
                let ghost asked = asked_targets(fresh, strings_view(supported@));
                let mut i: usize = 0;
                while i < pkgs.len()
                    invariant
                        i <= pkgs.len(),
                        pkgs@.len() == fresh.len(),
                        asked == asked_targets(fresh, strings_view(supported@)),
                        forall|j: int| 0 <= j < i ==> (#[trigger] pkgs@[j])@ == asked[j],
                        forall|j: int| i <= j < pkgs@.len() ==> (#[trigger] pkgs@[j])@ == fresh[j],
                    decreases pkgs.len() - i,
                {
                    pkgs[i].build(supported);
                    i += 1;
                }
                proof {
                    assert(targets_view(pkgs@) =~= asked);
                }
                self.packages.append(&mut pkgs);
                proof {
                    assert(targets_view(self.packages@) =~= before + asked);
                }
            },
            Err(_) => {},
        }
        self.status = CommitBuildStatus::Idle;
        let mut k: usize = base;
        while k < self.packages.len()
            invariant
                base <= k <= self.packages.len(),
                forall|i: int, j: int| 0 <= i < j < queued@.len() ==> queued@[i] < queued@[j],
                forall|i: int| 0 <= i < queued@.len() ==> base <= #[trigger] queued@[i] < k,
                forall|j: usize|
                    base <= j < k ==> (queued@.contains(j) <==> self@.packages[j as int].status()
                        is WaitingForBuild),
            decreases self.packages.len() - k,
        {
            let ghost q0 = queued@;
            let waits = match self.packages[k].status() {
                PackageBuildStatus::WaitingForBuild => true,
                _ => false,
            };
            if waits {
                queued.push(k);
                assert(queued@.last() == k);
                assert forall|j: usize| base <= j < k + 1 implies (queued@.contains(j)
                    <==> self@.packages[j as int].status() is WaitingForBuild) by {
                    if j < k {
                        if q0.contains(j) {
                            let w = choose|w: int| 0 <= w < q0.len() && q0[w] == j;
                            assert(queued@[w] == j);
                        }
                    } else {
                        assert(queued@[queued@.len() - 1] == j);
                    }
                }
            }
            k += 1;
        }
        queued
    }

    /// Appends to `pkgs` the targets of the keyed subtree `map` found at `path`
    /// of the manifest of `commit`.
    pub fn _parse_pkgs_value(
        map: &Vec<(String, Manifest)>,
        path: String,
        commit: &CommitInfo,
        pkgs: &mut Vec<PackageEnum>,
    )
        ensures
            targets_view(final(pkgs)@) == targets_view(old(pkgs)@) + targets_in(
                entries_view(map@),
                path@,
                commit.flake_url@,
            ),
        decreases map,
    {
        let ghost before = targets_view(pkgs@);
        let ghost ev = entries_view(map@);
        let ghost url = commit.flake_url@;
        if let Some(pkg) = Package::from_map(map, path.clone(), commit) {
            pkgs.push(PackageEnum::Derivation(pkg));
            assert(targets_view(pkgs@) =~= before + targets_in(ev, path@, url));
        } else if let Some(cfg) = NixosConfigPackage::from_map(map, path.clone(), commit) {
            pkgs.push(PackageEnum::NixosConfig(cfg));
            assert(targets_view(pkgs@) =~= before + targets_in(ev, path@, url));
        } else {
            let mut i: usize = 0;
            assert(targets_view(pkgs@) =~= before + targets_below(ev, 0, path@, url));
            while i < map.len()
                invariant
                    i <= map.len(),
                    ev == entries_view(map@),
                    url == commit.flake_url@,
                    targets_view(pkgs@) == before + targets_below(ev, i as nat, path@, url),
                decreases map.len() - i,
            {
                let ghost sofar = targets_view(pkgs@);
                match &map[i].1 {
                    Manifest::Object(sub) => {
                        let mut new_path = path.clone();
                        if !new_path.as_str().is_empty() {
                            new_path.push('.');
                        }
                        new_path.append(map[i].0.as_str());
                        assert(new_path@ =~= child_path(path@, ev[i as int].0));
                        assert(ev[i as int].1 == ManifestTree::Object(entries_view(sub@)));
                        Self::_parse_pkgs_value(sub, new_path, commit, pkgs);
                    },
                    _ => {},
                }
                assert(targets_view(pkgs@) =~= sofar + targets_of_child(ev, i as int, path@, url));
                assert(targets_view(pkgs@) =~= before + targets_below(
                    ev,
                    (i + 1) as nat,
                    path@,
                    url,
                ));
                i += 1;
            }
        }
    }
}

} // verus!
