//! The worker of one repository: which step follows which, what each step
//! asks of the surrounding program, and how what came back is read.

use vstd::prelude::*;
use crate::repo::{clone_url_of, RepoInfo};
use crate::status::RepoStatus;
use crate::text::str_eq;
use crate::tool::{strings_view, ToolOutput, ToolOutputView};

verus! {

/// The step that the worker of a repository is at. Each step stands for one
/// thing that the surrounding program does next.
#[derive(Clone, Copy, Debug, PartialEq, Eq, Structural)]
pub enum WorkerPhase {
    /// Open the checkout.
    Opening,
    /// Clone the repository into the checkout directory.
    Cloning,
    /// Scan the remote branches.
    Polling,
    /// Fetch the watched branches.
    Pulling,
    /// Sleep for the polling interval.
    Sleeping,
    /// Remove the checkout directory.
    Teardown,
}

/// How the step that the worker was at has ended.
#[derive(Clone, Copy, Debug, PartialEq, Eq, Structural)]
pub enum WorkerEvent {
    /// It succeeded. `changed` says whether a fetch moved any reference; it
    /// is read after a fetch only.
    Succeeded { changed: bool },
    /// It failed.
    Failed,
}

/// What the surrounding program does for one step of a worker.
#[derive(Debug)]
pub enum WorkerAction {
    /// Open the checkout at the checkout path.
    Open,
    /// Clone from this URL into the checkout path.
    Clone(String),
    /// List the remote branches and hand each to the scan.
    Scan,
    /// Fetch the watched branches from the remote `origin`.
    Pull,
    /// Sleep for this many seconds.
    Sleep(u64),
    /// Run `rm` with these arguments.
    Delete(Vec<String>),
}

/// The step that follows `phase` after `event`.
///
/// An opened or cloned checkout is polled; a checkout that cannot be opened
/// is cloned. After a scan comes a fetch; a fetch that changed something is
/// followed by a scan, one that changed nothing by a sleep and another
/// fetch. A failed clone, scan or fetch leads to the teardown, and the
/// teardown, however it ends, to opening again.
pub open spec fn next_phase(phase: WorkerPhase, event: WorkerEvent) -> WorkerPhase {
    match phase {
        WorkerPhase::Opening => match event {
            WorkerEvent::Succeeded { .. } => WorkerPhase::Polling,
            WorkerEvent::Failed => WorkerPhase::Cloning,
        },
        WorkerPhase::Cloning => match event {
            WorkerEvent::Succeeded { .. } => WorkerPhase::Polling,
            WorkerEvent::Failed => WorkerPhase::Teardown,
        },
        WorkerPhase::Polling => match event {
            WorkerEvent::Succeeded { .. } => WorkerPhase::Pulling,
            WorkerEvent::Failed => WorkerPhase::Teardown,
        },
        WorkerPhase::Pulling => match event {
            WorkerEvent::Succeeded { changed } => if changed {
                WorkerPhase::Polling
            } else {
                WorkerPhase::Sleeping
            },
            WorkerEvent::Failed => WorkerPhase::Teardown,
        },
        WorkerPhase::Sleeping => WorkerPhase::Pulling,
        WorkerPhase::Teardown => WorkerPhase::Opening,
    }
}

/// The step that follows `phase` after `event`.
pub fn advance(phase: WorkerPhase, event: WorkerEvent) -> (next: WorkerPhase)
    ensures
        next == next_phase(phase, event),
{
    match phase {
        WorkerPhase::Opening => match event {
            WorkerEvent::Succeeded { .. } => WorkerPhase::Polling,
            WorkerEvent::Failed => WorkerPhase::Cloning,
        },
        WorkerPhase::Cloning => match event {
            WorkerEvent::Succeeded { .. } => WorkerPhase::Polling,
            WorkerEvent::Failed => WorkerPhase::Teardown,
        },
        WorkerPhase::Polling => match event {
            WorkerEvent::Succeeded { .. } => WorkerPhase::Pulling,
            WorkerEvent::Failed => WorkerPhase::Teardown,
        },
        WorkerPhase::Pulling => match event {
            WorkerEvent::Succeeded { changed } => if changed {
                WorkerPhase::Polling
            } else {
                WorkerPhase::Sleeping
            },
            WorkerEvent::Failed => WorkerPhase::Teardown,
        },
        WorkerPhase::Sleeping => WorkerPhase::Pulling,
        WorkerPhase::Teardown => WorkerPhase::Opening,
    }
}

/// The status that a repository shows once its worker has gone from `from`
/// to the step `to`. The teardown after a failed clone shows an idle
/// repository; the teardown after a failed scan or fetch leaves the status
/// of the failed step.
pub open spec fn status_entering(
    from: WorkerPhase,
    to: WorkerPhase,
    current: RepoStatus,
) -> RepoStatus {
    match to {
        WorkerPhase::Opening => RepoStatus::Opening,
        WorkerPhase::Cloning => RepoStatus::Cloning,
        WorkerPhase::Polling => RepoStatus::Polling,
        WorkerPhase::Pulling => RepoStatus::Pulling,
        WorkerPhase::Sleeping => RepoStatus::Idle,
        WorkerPhase::Teardown => if from == WorkerPhase::Cloning {
            RepoStatus::Idle
        } else {
            current
        },
    }
}

/// The target that a list of references gives for `name`: that of the last
/// entry under that name, `None` where there is none.
pub open spec fn ref_target(refs: Seq<(Seq<char>, Seq<char>)>, name: Seq<char>) -> Option<
    Seq<char>,
>
    decreases refs.len(),
{
    if refs.len() == 0 {
        None
    } else if refs.last().0 == name {
        Some(refs.last().1)
    } else {
        ref_target(refs.drop_last(), name)
    }
}

/// The map from reference names to targets that a list of references
/// denotes.
pub open spec fn refs_map(refs: Seq<(Seq<char>, Seq<char>)>) -> Map<Seq<char>, Seq<char>> {
    Map::new(
        |name: Seq<char>| ref_target(refs, name) is Some,
        |name: Seq<char>| ref_target(refs, name)->Some_0,
    )
}

/// The name and target of each reference of a list, in order.
pub open spec fn refs_view(refs: Seq<(String, String)>) -> Seq<(Seq<char>, Seq<char>)> {
    refs.map_values(|r: (String, String)| (r.0@, r.1@))
}

/// A name with a target occurs in the list.
pub proof fn lemma_ref_target_occurs(refs: Seq<(Seq<char>, Seq<char>)>, name: Seq<char>)
    ensures
        ref_target(refs, name) is Some ==> exists|i: int|
            0 <= i < refs.len() && (#[trigger] refs[i]).0 == name,
    decreases refs.len(),
{
    if refs.len() > 0 {
        if refs.last().0 == name {
            assert(refs[refs.len() - 1].0 == name);
        } else {
            lemma_ref_target_occurs(refs.drop_last(), name);
            if ref_target(refs, name) is Some {
                let i = choose|i: int|
                    0 <= i < refs.drop_last().len() && (#[trigger] refs.drop_last()[i]).0 == name;
                assert(refs[i].0 == name);
            }
        }
    }
}

/// The target that `refs` gives for `name`.
pub fn find_ref<'a>(refs: &'a Vec<(String, String)>, name: &str) -> (r: Option<&'a String>)
    ensures
        match r {
            Some(t) => ref_target(refs_view(refs@), name@) == Some(t@),
            None => ref_target(refs_view(refs@), name@) is None,
        },
{
    let ghost rv = refs_view(refs@);
    let mut i: usize = refs.len();
    assert(rv.subrange(0, i as int) =~= rv);
    while i > 0
        invariant
            i <= refs.len(),
            rv == refs_view(refs@),
            ref_target(rv, name@) == ref_target(rv.subrange(0, i as int), name@),
        decreases i,
    {
        i -= 1;
        proof {
            let s = rv.subrange(0, i + 1);
            assert(s.last() == rv[i as int]);
            assert(s.drop_last() =~= rv.subrange(0, i as int));
            assert(rv[i as int] == (refs@[i as int].0@, refs@[i as int].1@));
        }
        if str_eq(refs[i].0.as_str(), name) {
            return Some(&refs[i].1);
        }
    }
    None
}

/// Whether every name of `names` has the same target in `a` and in `b`.
fn refs_agree_on(
    names: &Vec<(String, String)>,
    a: &Vec<(String, String)>,
    b: &Vec<(String, String)>,
) -> (r: bool)
    ensures
        r == forall|i: int|
            0 <= i < names@.len() ==> ref_target(refs_view(a@), (#[trigger] refs_view(names@)[i]).0)
                == ref_target(refs_view(b@), refs_view(names@)[i].0),
{
    let mut i: usize = 0;
    while i < names.len()
        invariant
            i <= names.len(),
            forall|j: int|
                0 <= j < i ==> ref_target(refs_view(a@), (#[trigger] refs_view(names@)[j]).0)
                    == ref_target(refs_view(b@), refs_view(names@)[j].0),
        decreases names.len() - i,
    {
        let name = names[i].0.as_str();
        assert(refs_view(names@)[i as int].0 == name@);
        let same = match (find_ref(a, name), find_ref(b, name)) {
            (Some(x), Some(y)) => str_eq(x.as_str(), y.as_str()),
            (None, None) => true,
            _ => false,
        };
        if !same {
            return false;
        }
        i += 1;
    }
    true
}

/// Whether the references moved between two snapshots: whether the maps
/// from names to targets that the two lists denote differ.
pub fn refs_changed(before: &Vec<(String, String)>, after: &Vec<(String, String)>) -> (changed:
    bool)
    ensures
        changed == (refs_map(refs_view(before@)) != refs_map(refs_view(after@))),
{
    let same = refs_agree_on(before, before, after) && refs_agree_on(after, before, after);
    proof {
        let bv = refs_view(before@);
        let av = refs_view(after@);
        if same {
            assert forall|name: Seq<char>| ref_target(bv, name) == ref_target(av, name) by {
                lemma_ref_target_occurs(bv, name);
                lemma_ref_target_occurs(av, name);
                if ref_target(bv, name) is Some {
                    let i = choose|i: int| 0 <= i < bv.len() && (#[trigger] bv[i]).0 == name;
                    assert(bv[i].0 == name);
                } else if ref_target(av, name) is Some {
                    let i = choose|i: int| 0 <= i < av.len() && (#[trigger] av[i]).0 == name;
                    assert(av[i].0 == name);
                }
            }
            assert(refs_map(bv) =~= refs_map(av));
        } else {
            let name = if !(forall|i: int|
                0 <= i < bv.len() ==> ref_target(bv, (#[trigger] bv[i]).0) == ref_target(
                    av,
                    bv[i].0,
                )) {
                let i = choose|i: int|
                    0 <= i < bv.len() && ref_target(bv, (#[trigger] bv[i]).0) != ref_target(
                        av,
                        bv[i].0,
                    );
                bv[i].0
            } else {
                let i = choose|i: int|
                    0 <= i < av.len() && ref_target(bv, (#[trigger] av[i]).0) != ref_target(
                        av,
                        av[i].0,
                    );
                av[i].0
            };
            assert(ref_target(bv, name) != ref_target(av, name));
            if refs_map(bv) == refs_map(av) {
                assert(refs_map(bv).dom().contains(name) == refs_map(av).dom().contains(name));
                assert(refs_map(bv)[name] == refs_map(av)[name]);
            }
        }
    }
    !same
}

/// How a run of `rm` on the checkout reads: done where the exit code is 0.
pub open spec fn deleted(output: ToolOutputView) -> bool {
    output.succeeded()
}

impl RepoInfo {
    /// Starts, or restarts, the worker: the repository is opening, and the
    /// first step is to open the checkout.
    pub fn thread_poll(&mut self) -> (phase: WorkerPhase)
        ensures
            phase == WorkerPhase::Opening,
            final(self).status == RepoStatus::Opening,
            final(self).same_but_status(old(self)),
    {
        self.status = RepoStatus::Opening;
        WorkerPhase::Opening
    }

    /// Takes the worker from the step `phase`, which ended with `event`, to
    /// the next step, and shows the status of that step.
    pub fn thread_loop(&mut self, phase: WorkerPhase, event: WorkerEvent) -> (next: WorkerPhase)
        ensures
            next == next_phase(phase, event),
            final(self).status == status_entering(phase, next, old(self).status),
            final(self).same_but_status(old(self)),
    {
        let next = advance(phase, event);
        match next {
            WorkerPhase::Opening => {
                self.status = RepoStatus::Opening;
            },
            WorkerPhase::Cloning => {
                self.status = RepoStatus::Cloning;
            },
            WorkerPhase::Polling => {
                self.status = RepoStatus::Polling;
            },
            WorkerPhase::Pulling => {
                self.status = RepoStatus::Pulling;
            },
            WorkerPhase::Sleeping => {
                self.status = RepoStatus::Idle;
            },
            WorkerPhase::Teardown => {
                match phase {
                    WorkerPhase::Cloning => {
                        self.status = RepoStatus::Idle;
                    },
                    _ => {},
                }
            },
        }
        next
    }

    /// What the surrounding program does for the step `phase`.
    pub fn action(&self, phase: WorkerPhase) -> (r: WorkerAction)
        ensures
            match phase {
                WorkerPhase::Opening => r is Open,
                WorkerPhase::Cloning => r is Clone && r->Clone_0@ == clone_url_of(
                    self.repo.url@,
                    match self.credentials {
                        Some(c) => Some(c@),
                        None => None,
                    },
                ),
                WorkerPhase::Polling => r is Scan,
                WorkerPhase::Pulling => r is Pull,
                WorkerPhase::Sleeping => r == WorkerAction::Sleep(self.repo.poll_interval_sec),
                WorkerPhase::Teardown => r is Delete && strings_view(r->Delete_0@) == seq![
                    "-rf"@,
                    self.checkout_path@,
                ],
            },
    {
        match phase {
            WorkerPhase::Opening => WorkerAction::Open,
            WorkerPhase::Cloning => WorkerAction::Clone(self.clone_url()),
            WorkerPhase::Polling => WorkerAction::Scan,
            WorkerPhase::Pulling => WorkerAction::Pull,
            WorkerPhase::Sleeping => WorkerAction::Sleep(self.repo.poll_interval_sec),
            WorkerPhase::Teardown => {
                let mut args: Vec<String> = Vec::new();
                args.push(String::from_str("-rf"));
                args.push(self.checkout_path.clone());
                assert(strings_view(args@) =~= seq!["-rf"@, self.checkout_path@]);
                WorkerAction::Delete(args)
            },
        }
    }

    /// Reads the two snapshots of the references taken around a fetch that
    /// succeeded: the repository is idle again, and the result says whether
    /// any reference moved.
    pub fn pull(&mut self, before: &Vec<(String, String)>, after: &Vec<(String, String)>) -> (event:
        WorkerEvent)
        ensures
            event == (WorkerEvent::Succeeded {
                changed: refs_map(refs_view(before@)) != refs_map(refs_view(after@)),
            }),
            final(self).status == RepoStatus::Idle,
            final(self).same_but_status(old(self)),
    {
        let changed = refs_changed(before, after);
        self.status = RepoStatus::Idle;
        WorkerEvent::Succeeded { changed }
    }

    /// Reads a run of `rm` on the checkout: the teardown succeeded where the
    /// exit code is 0 and failed otherwise.
    pub fn delete_repo(&self, output: &ToolOutput) -> (event: WorkerEvent)
        ensures
            event == if deleted(output@) {
                WorkerEvent::Succeeded { changed: false }
            } else {
                WorkerEvent::Failed
            },
    {
        if output.succeeded() {
            WorkerEvent::Succeeded { changed: false }
        } else {
            WorkerEvent::Failed
        }
    }
}

} // verus!
