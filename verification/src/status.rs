//! The observable status of repositories, commits and build targets.

use vstd::prelude::*;

verus! {

/// What a repository worker is doing right now.
#[derive(Clone, Copy, Debug, PartialEq, Eq, Structural)]
pub enum RepoStatus {
    Cloning,
    Opening,
    Idle,
    Pulling,
    Polling,
}

/// Whether the targets of a commit are being listed.
#[derive(Clone, Copy, Debug, PartialEq, Eq, Structural)]
pub enum CommitBuildStatus {
    Idle,
    GettingPackages,
}

/// Where one target stands on its way through the build pool.
#[derive(Debug)]
pub enum PackageBuildStatus {
    Idle,
    WaitingForBuild,
    Building,
    UnsupportedArchitecture(String),
    Success(String),
    Failed(String),
}

/// The mathematical value of a `PackageBuildStatus`.
pub enum BuildStatusView {
    Idle,
    WaitingForBuild,
    Building,
    UnsupportedArchitecture(Seq<char>),
    Success(Seq<char>),
    Failed(Seq<char>),
}

impl BuildStatusView {
    /// A status that no later transition replaces.
    pub open spec fn is_terminal(self) -> bool {
        self is UnsupportedArchitecture || self is Success || self is Failed
    }

    /// The status once a permit of the build pool was granted: a waiting
    /// target is building, any other is as before.
    pub open spec fn after_start(self) -> BuildStatusView {
        if self is WaitingForBuild {
            BuildStatusView::Building
        } else {
            self
        }
    }

    /// The status once the build has ended with `result`: a building target
    /// has succeeded with the artifact path or failed with the message, any
    /// other is as before.
    pub open spec fn after_finish(self, result: Result<Seq<char>, Seq<char>>) -> BuildStatusView {
        if self is Building {
            match result {
                Ok(path) => BuildStatusView::Success(path),
                Err(message) => BuildStatusView::Failed(message),
            }
        } else {
            self
        }
    }
}

impl View for PackageBuildStatus {
    type V = BuildStatusView;

    open spec fn view(&self) -> BuildStatusView {
        match self {
            PackageBuildStatus::Idle => BuildStatusView::Idle,
            PackageBuildStatus::WaitingForBuild => BuildStatusView::WaitingForBuild,
            PackageBuildStatus::Building => BuildStatusView::Building,
            PackageBuildStatus::UnsupportedArchitecture(a) => {
                BuildStatusView::UnsupportedArchitecture(a@)
            },
            PackageBuildStatus::Success(p) => BuildStatusView::Success(p@),
            PackageBuildStatus::Failed(m) => BuildStatusView::Failed(m@),
        }
    }
}

impl PackageBuildStatus {
    /// A status that no later transition replaces.
    pub open spec fn is_terminal(&self) -> bool {
        self@.is_terminal()
    }

    /// Records that a permit of the build pool was granted. Returns whether
    /// the target was waiting for one, and so whether the build is to run.
    pub fn start(&mut self) -> (started: bool)
        ensures
            started == (old(self)@ is WaitingForBuild),
            final(self)@ == old(self)@.after_start(),
    {
        match self {
            PackageBuildStatus::WaitingForBuild => {
                *self = PackageBuildStatus::Building;
                true
            },
            _ => false,
        }
    }

    /// Records how the build ended. Returns whether the target was building.
    pub fn finish(&mut self, result: Result<String, String>) -> (finished: bool)
        ensures
            finished == (old(self)@ is Building),
            final(self)@ == old(self)@.after_finish(
                match result {
                    Ok(p) => Ok(p@),
                    Err(m) => Err(m@),
                },
            ),
    {
        match self {
            PackageBuildStatus::Building => {
                match result {
                    Ok(path) => {
                        *self = PackageBuildStatus::Success(path);
                    },
                    Err(message) => {
                        *self = PackageBuildStatus::Failed(message);
                    },
                }
                true
            },
            _ => false,
        }
    }

    /// True exactly for the three final states.
    pub fn terminal(&self) -> (r: bool)
        ensures
            r == self.is_terminal(),
    {
        match self {
            PackageBuildStatus::UnsupportedArchitecture(_) => true,
            PackageBuildStatus::Success(_) => true,
            PackageBuildStatus::Failed(_) => true,
            _ => false,
        }
    }
}

impl Clone for PackageBuildStatus {
    fn clone(&self) -> (r: Self)
        ensures
            r == *self,
    {
        match self {
            PackageBuildStatus::Idle => PackageBuildStatus::Idle,
            PackageBuildStatus::WaitingForBuild => PackageBuildStatus::WaitingForBuild,
            PackageBuildStatus::Building => PackageBuildStatus::Building,
            PackageBuildStatus::UnsupportedArchitecture(a) => {
                PackageBuildStatus::UnsupportedArchitecture(a.clone())
            },
            PackageBuildStatus::Success(p) => PackageBuildStatus::Success(p.clone()),
            PackageBuildStatus::Failed(m) => PackageBuildStatus::Failed(m.clone()),
        }
    }
}

} // verus!
