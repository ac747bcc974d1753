//! What a viewer of the status has selected: a repository, below it a
//! package, a branch, a commit and an architecture.

use vstd::prelude::*;
use crate::text::{join, joined};

verus! {

/// A selection, from the repository down. Selecting at one level clears the
/// levels below it.
#[derive(Debug)]
pub struct Props {
    pub repo_name: Option<String>,
    pub package_name: Option<String>,
    pub branch: Option<String>,
    pub commit_hash: Option<String>,
    pub arch: Option<String>,
}

/// The mathematical value of a `Props`.
pub struct PropsView {
    pub repo_name: Option<Seq<char>>,
    pub package_name: Option<Seq<char>>,
    pub branch: Option<Seq<char>>,
    pub commit_hash: Option<Seq<char>>,
    pub arch: Option<Seq<char>>,
}

/// The text of an optional string.
pub open spec fn text_of(value: Option<String>) -> Option<Seq<char>> {
    match value {
        Some(s) => Some(s@),
        None => None,
    }
}

impl View for Props {
    type V = PropsView;

    open spec fn view(&self) -> PropsView {
        PropsView {
            repo_name: text_of(self.repo_name),
            package_name: text_of(self.package_name),
            branch: text_of(self.branch),
            commit_hash: text_of(self.commit_hash),
            arch: text_of(self.arch),
        }
    }
}

/// The query parameter `name=value` of a selected level, and nothing for a
/// level that is not selected.
pub open spec fn parameter(name: Seq<char>, value: Option<Seq<char>>) -> Seq<Seq<char>> {
    match value {
        Some(v) => seq![name + v],
        None => Seq::empty(),
    }
}

impl PropsView {
    /// The query parameters of the selection, from the repository down.
    pub open spec fn parameters(self) -> Seq<Seq<char>> {
        parameter("repo="@, self.repo_name) + parameter("package="@, self.package_name)
            + parameter("branch="@, self.branch) + parameter("commit="@, self.commit_hash)
            + parameter("arch="@, self.arch)
    }

    /// The query string of the selection.
    pub open spec fn query(self) -> Seq<char> {
        joined(self.parameters(), "&"@)
    }

    /// The address of the page at `pathname` of `host` that shows the
    /// selection.
    pub open spec fn url(self, protocol: Seq<char>, host: Seq<char>, pathname: Seq<char>) -> Seq<
        char,
    > {
        protocol + "//"@ + host + pathname + "?"@ + self.query()
    }
}

/// A copy of an optional string.
fn copy_of(value: &Option<String>) -> (r: Option<String>)
    ensures
        text_of(r) == text_of(*value),
{
    match value {
        Some(s) => Some(s.clone()),
        None => None,
    }
}

/// Appends the parameter `name` followed by the value, if there is one.
fn push_parameter(params: &mut Vec<String>, name: &str, value: &Option<String>)
    ensures
        final(params)@.map_values(|s: String| s@) == old(params)@.map_values(|s: String| s@)
            + parameter(name@, text_of(*value)),
{
    let ghost before = params@.map_values(|s: String| s@);
    match value {
        Some(v) => {
            let mut p = String::from_str(name);
            p.append(v.as_str());
            params.push(p);
            assert(params@.map_values(|s: String| s@) =~= before + parameter(
                name@,
                text_of(*value),
            ));
        },
        None => {
            assert(params@.map_values(|s: String| s@) =~= before + parameter(
                name@,
                text_of(*value),
            ));
        },
    }
}

impl Default for Props {
    /// Nothing selected.
    fn default() -> (r: Self)
        ensures
            r@ == (PropsView {
                repo_name: None,
                package_name: None,
                branch: None,
                commit_hash: None,
                arch: None,
            }),
    {
        Props { repo_name: None, package_name: None, branch: None, commit_hash: None, arch: None }
    }
}

impl Props {
    /// The query string of the selection: `name=value` for each selected
    /// level, from the repository down, with `&` between them.
    pub fn query(&self) -> (r: String)
        ensures
            r@ == self@.query(),
    {
        let mut params: Vec<String> = Vec::new();
        assert(params@.map_values(|s: String| s@) =~= Seq::empty());
        push_parameter(&mut params, "repo=", &self.repo_name);
        push_parameter(&mut params, "package=", &self.package_name);
        push_parameter(&mut params, "branch=", &self.branch);
        push_parameter(&mut params, "commit=", &self.commit_hash);
        push_parameter(&mut params, "arch=", &self.arch);
        assert(params@.map_values(|s: String| s@) =~= self@.parameters());
        join(&params, "&")
    }

    /// The address of the page at `pathname` of `host` that shows the
    /// selection.
    pub fn get_url(&self, protocol: &str, host: &str, pathname: &str) -> (r: String)
        ensures
            r@ == self@.url(protocol@, host@, pathname@),
    {
        let mut r = String::from_str(protocol);
        r.append("//");
        r.append(host);
        r.append(pathname);
        r.append("?");
        r.append(self.query().as_str());
        r
    }

    /// The selection of the repository `repo_name` alone.
    pub fn with_repo_name(&self, repo_name: String) -> (r: Self)
        ensures
            r@ == (PropsView {
                repo_name: Some(repo_name@),
                package_name: None,
                branch: None,
                commit_hash: None,
                arch: None,
            }),
    {
        Props {
            repo_name: Some(repo_name),
            package_name: None,
            branch: None,
            commit_hash: None,
            arch: None,
        }
    }

    /// The selection of the package `package_name` in the selected
    /// repository.
    pub fn with_package(&self, package_name: String) -> (r: Self)
        ensures
            r@ == (PropsView {
                package_name: Some(package_name@),
                branch: None,
                commit_hash: None,
                arch: None,
                ..self@
            }),
    {
        Props {
            repo_name: copy_of(&self.repo_name),
            package_name: Some(package_name),
            branch: None,
            commit_hash: None,
            arch: None,
        }
    }

    /// The selection of the branch `branch` of the selected package.
    pub fn with_branch(&self, branch: String) -> (r: Self)
        ensures
            r@ == (PropsView { branch: Some(branch@), commit_hash: None, arch: None, ..self@ }),
    {
        Props {
            repo_name: copy_of(&self.repo_name),
            package_name: copy_of(&self.package_name),
            branch: Some(branch),
            commit_hash: None,
            arch: None,
        }
    }

    /// The selection of the commit `commit_hash` on the selected branch.
    pub fn with_commit(&self, commit_hash: String) -> (r: Self)
        ensures
            r@ == (PropsView { commit_hash: Some(commit_hash@), arch: None, ..self@ }),
    {
        Props {
            repo_name: copy_of(&self.repo_name),
            package_name: copy_of(&self.package_name),
            branch: copy_of(&self.branch),
            commit_hash: Some(commit_hash),
            arch: None,
        }
    }

    /// The selection of the architecture `arch` of the selected commit.
    pub fn with_arch(&self, arch: String) -> (r: Self)
        ensures
            r@ == (PropsView { arch: Some(arch@), ..self@ }),
    {
        Props {
            repo_name: copy_of(&self.repo_name),
            package_name: copy_of(&self.package_name),
            branch: copy_of(&self.branch),
            commit_hash: copy_of(&self.commit_hash),
            arch: Some(arch),
        }
    }

    /// The selection without the package and all below it.
    pub fn clear_from_package(&self) -> (r: Self)
        ensures
            r@ == (PropsView {
                package_name: None,
                branch: None,
                commit_hash: None,
                arch: None,
                ..self@
            }),
    {
        Props {
            repo_name: copy_of(&self.repo_name),
            package_name: None,
            branch: None,
            commit_hash: None,
            arch: None,
        }
    }

    /// The selection without the branch and all below it.
    pub fn clear_from_branch(&self) -> (r: Self)
        ensures
            r@ == (PropsView { branch: None, commit_hash: None, arch: None, ..self@ }),
    {
        Props {
            repo_name: copy_of(&self.repo_name),
            package_name: copy_of(&self.package_name),
            branch: None,
            commit_hash: None,
            arch: None,
        }
    }

    /// The selection without the commit and the architecture.
    pub fn clear_from_commit(&self) -> (r: Self)
        ensures
            r@ == (PropsView { commit_hash: None, arch: None, ..self@ }),
    {
        Props {
            repo_name: copy_of(&self.repo_name),
            package_name: copy_of(&self.package_name),
            branch: copy_of(&self.branch),
            commit_hash: None,
            arch: None,
        }
    }

    /// The selection without the architecture.
    pub fn clear_arch(&self) -> (r: Self)
        ensures
            r@ == (PropsView { arch: None, ..self@ }),
    {
        Props {
            repo_name: copy_of(&self.repo_name),
            package_name: copy_of(&self.package_name),
            branch: copy_of(&self.branch),
            commit_hash: copy_of(&self.commit_hash),
            arch: None,
        }
    }
}

} // verus!
