//! Build targets: arbitrary packages (derivations) and full system
//! configurations, and how each is recognised in a manifest.

use vstd::prelude::*;
use crate::arch::{arch_of, detect_arch};
use crate::commit::CommitInfo;
use crate::manifest::{entries_view, get_text, text_at, Manifest, ManifestTree};
use crate::status::{BuildStatusView, PackageBuildStatus};
use crate::text::{
    chars_of, contains_string, has_prefix, is_prefix, replace_all, replaced, same_chars,
};
use crate::tool::{strings_view, ToolOutput, ToolOutputView};

verus! {

/// A package of a flake, built for one architecture.
#[derive(Debug)]
pub struct Package {
    pub description: String,
    pub name: String,
    pub pkg_type: String,
    pub path: String,
    pub arch: String,
    pub flake_url: String,
    pub status: PackageBuildStatus,
}

/// A full system configuration of a flake.
#[derive(Debug)]
pub struct NixosConfigPackage {
    pub path: String,
    pub pkg_type: String,
    pub flake_url: String,
    pub status: PackageBuildStatus,
}

/// A build target of either kind.
#[derive(Debug)]
pub enum PackageEnum {
    Derivation(Package),
    NixosConfig(NixosConfigPackage),
}

/// The mathematical value of a `Package`.
pub struct PackageView {
    pub description: Seq<char>,
    pub name: Seq<char>,
    pub pkg_type: Seq<char>,
    pub path: Seq<char>,
    pub arch: Seq<char>,
    pub flake_url: Seq<char>,
    pub status: BuildStatusView,
}

/// The mathematical value of a `NixosConfigPackage`.
pub struct NixosConfigView {
    pub path: Seq<char>,
    pub pkg_type: Seq<char>,
    pub flake_url: Seq<char>,
    pub status: BuildStatusView,
}

/// The mathematical value of a `PackageEnum`.
pub enum TargetView {
    Derivation(PackageView),
    NixosConfig(NixosConfigView),
}

impl View for Package {
    type V = PackageView;

    open spec fn view(&self) -> PackageView {
        PackageView {
            description: self.description@,
            name: self.name@,
            pkg_type: self.pkg_type@,
            path: self.path@,
            arch: self.arch@,
            flake_url: self.flake_url@,
            status: self.status@,
        }
    }
}

impl View for NixosConfigPackage {
    type V = NixosConfigView;

    open spec fn view(&self) -> NixosConfigView {
        NixosConfigView {
            path: self.path@,
            pkg_type: self.pkg_type@,
            flake_url: self.flake_url@,
            status: self.status@,
        }
    }
}

impl View for PackageEnum {
    type V = TargetView;

    open spec fn view(&self) -> TargetView {
        match self {
            PackageEnum::Derivation(p) => TargetView::Derivation(p@),
            PackageEnum::NixosConfig(c) => TargetView::NixosConfig(c@),
        }
    }
}

impl TargetView {
    /// The manifest path under which the target is built.
    pub open spec fn path(self) -> Seq<char> {
        match self {
            TargetView::Derivation(p) => p.path,
            TargetView::NixosConfig(c) => c.path,
        }
    }

    /// The URL handed to the build tool.
    pub open spec fn flake_url(self) -> Seq<char> {
        match self {
            TargetView::Derivation(p) => p.flake_url,
            TargetView::NixosConfig(c) => c.flake_url,
        }
    }

    /// The build status.
    pub open spec fn status(self) -> BuildStatusView {
        match self {
            TargetView::Derivation(p) => p.status,
            TargetView::NixosConfig(c) => c.status,
        }
    }

    /// The same target with another build status.
    pub open spec fn with_status(self, status: BuildStatusView) -> TargetView {
        match self {
            TargetView::Derivation(p) => TargetView::Derivation(PackageView { status, ..p }),
            TargetView::NixosConfig(c) => TargetView::NixosConfig(
                NixosConfigView { status, ..c },
            ),
        }
    }
}

/// The value of each target of a list, in order.
pub open spec fn targets_view(targets: Seq<PackageEnum>) -> Seq<TargetView> {
    targets.map_values(|t: PackageEnum| t@)
}

/// The URL of the target at `path` inside the flake at `commit_url`.
pub open spec fn target_url(commit_url: Seq<char>, path: Seq<char>) -> Seq<char> {
    commit_url.push('#') + path
}

/// The first segment of the path of every system configuration.
pub open spec fn system_config_root() -> Seq<char> {
    "nixosConfigurations"@
}

/// The type tag that marks a system configuration.
pub open spec fn system_config_type() -> Seq<char> {
    "nixos-configuration"@
}

/// What is appended to the path of a system configuration to reach what is
/// built of it.
pub open spec fn system_config_suffix() -> Seq<char> {
    ".config.system.build.toplevel"@
}

/// The package that a keyed subtree at `path` describes: one whose
/// `description`, `name` and `type` are all texts.
pub open spec fn derivation_at(
    entries: Seq<(Seq<char>, ManifestTree)>,
    path: Seq<char>,
    commit_url: Seq<char>,
) -> Option<PackageView> {
    let description = text_at(entries, "description"@);
    let name = text_at(entries, "name"@);
    let pkg_type = text_at(entries, "type"@);
    if description is Some && name is Some && pkg_type is Some {
        Some(
            PackageView {
                description: description->Some_0,
                name: name->Some_0,
                pkg_type: pkg_type->Some_0,
                path,
                arch: arch_of(path),
                flake_url: target_url(commit_url, path),
                status: BuildStatusView::Idle,
            },
        )
    } else {
        None
    }
}

/// The system configuration that a keyed subtree at `path` describes: the
/// path starts with `nixosConfigurations` and the `type` is the text
/// `nixos-configuration`.
pub open spec fn system_config_at(
    entries: Seq<(Seq<char>, ManifestTree)>,
    path: Seq<char>,
    commit_url: Seq<char>,
) -> Option<NixosConfigView> {
    if is_prefix(system_config_root(), path) && text_at(entries, "type"@) == Some(
        system_config_type(),
    ) {
        Some(
            NixosConfigView {
                path: path + system_config_suffix(),
                pkg_type: system_config_type(),
                flake_url: target_url(commit_url, path + system_config_suffix()),
                status: BuildStatusView::Idle,
            },
        )
    } else {
        None
    }
}

/// The URL of the target at `path` inside the flake at `commit_url`.
pub fn make_target_url(commit_url: &str, path: &str) -> (r: String)
    ensures
        r@ == target_url(commit_url@, path@),
{
    let mut r = String::from_str(commit_url);
    r.push('#');
    r.append(path);
    r
}

impl Package {
    /// Recognises a package in the keyed subtree `map` found at `path` of the
    /// manifest of `commit`.
    pub fn from_map(map: &Vec<(String, Manifest)>, path: String, commit: &CommitInfo) -> (r:
        Option<Package>)
        ensures
            match r {
                Some(p) => derivation_at(entries_view(map@), path@, commit.flake_url@) == Some(p@),
                None => derivation_at(entries_view(map@), path@, commit.flake_url@) is None,
            },
    {
        let description = match get_text(map, "description") {
            Some(s) => s.clone(),
            None => { return None; },
        };
        let name = match get_text(map, "name") {
            Some(s) => s.clone(),
            None => { return None; },
        };
        let pkg_type = match get_text(map, "type") {
            Some(s) => s.clone(),
            None => { return None; },
        };
        let chars = chars_of(path.as_str());
        let arch = detect_arch(&chars);
        let flake_url = make_target_url(commit.flake_url.as_str(), path.as_str());
        Some(
            Package {
                description,
                name,
                pkg_type,
                path,
                arch,
                flake_url,
                status: PackageBuildStatus::Idle,
            },
        )
    }
}

impl NixosConfigPackage {
    /// Recognises a system configuration in the keyed subtree `map` found at
    /// `path` of the manifest of `commit`.
    pub fn from_map(map: &Vec<(String, Manifest)>, path: String, commit: &CommitInfo) -> (r:
        Option<NixosConfigPackage>)
        ensures
            match r {
                Some(c) => system_config_at(entries_view(map@), path@, commit.flake_url@) == Some(
                    c@,
                ),
                None => system_config_at(entries_view(map@), path@, commit.flake_url@) is None,
            },
    {
        let chars = chars_of(path.as_str());
        let root = chars_of("nixosConfigurations");
        if !has_prefix(&chars, &root) {
            return None;
        }
        let pkg_type = match get_text(map, "type") {
            Some(s) => s.clone(),
            None => { return None; },
        };
        let found = chars_of(pkg_type.as_str());
        let wanted = chars_of("nixos-configuration");
        if !same_chars(&found, &wanted) {
            return None;
        }
        let mut path = path;
        path.append(".config.system.build.toplevel");
        let flake_url = make_target_url(commit.flake_url.as_str(), path.as_str());
        Some(NixosConfigPackage { pkg_type, flake_url, path, status: PackageBuildStatus::Idle })
    }
}

/// Whether `arch` is among `supported`.
pub fn is_supported(supported: &Vec<String>, arch: &str) -> (r: bool)
    ensures
        r == strings_view(supported@).contains(arch@),
{
    contains_string(supported, arch)
}

/// How a finished run of the build tool reads: the trimmed standard output
/// as the artifact path where the exit code is 0, else the trimmed standard
/// error as the failure message.
pub open spec fn build_outcome(output: ToolOutputView) -> Result<Seq<char>, Seq<char>> {
    if output.succeeded() {
        Ok(output.stdout_text())
    } else {
        Err(output.stderr_text())
    }
}

/// Reads a finished run of the build tool.
pub fn build_static(output: &ToolOutput) -> (r: Result<String, String>)
    ensures
        match r {
            Ok(p) => build_outcome(output@) == Ok::<Seq<char>, Seq<char>>(p@),
            Err(m) => build_outcome(output@) == Err::<Seq<char>, Seq<char>>(m@),
        },
{
    if output.succeeded() {
        Ok(output.stdout_text())
    } else {
        Err(output.stderr_text())
    }
}

impl TargetView {
    /// Whether the target may be built where only `supported` architectures
    /// are: a package by its architecture tag, a system configuration always.
    pub open spec fn buildable(self, supported: Seq<Seq<char>>) -> bool {
        match self {
            TargetView::Derivation(p) => supported.contains(p.arch),
            TargetView::NixosConfig(_) => true,
        }
    }

    /// The target once its build was asked for: an idle target waits for a
    /// permit where it is buildable and else is closed as unsupported; a
    /// target that is not idle is as before.
    pub open spec fn after_build(self, supported: Seq<Seq<char>>) -> TargetView {
        if !(self.status() is Idle) {
            self
        } else if self.buildable(supported) {
            self.with_status(BuildStatusView::WaitingForBuild)
        } else {
            self.with_status(BuildStatusView::UnsupportedArchitecture(self->Derivation_0.arch))
        }
    }

    /// The target once a permit of the build pool was granted.
    pub open spec fn after_start(self) -> TargetView {
        self.with_status(self.status().after_start())
    }

    /// The target once its build has ended with `result`.
    pub open spec fn after_finish(self, result: Result<Seq<char>, Seq<char>>) -> TargetView {
        self.with_status(self.status().after_finish(result))
    }
}

impl Package {
    /// The path of the package with `*` in place of every occurrence of its
    /// architecture tag: the name that its builds for all architectures
    /// share.
    pub fn get_no_arch_name(&self) -> (r: String)
        ensures
            r@ == replaced(self.path@, self.arch@, "*"@),
    {
        replace_all(self.path.as_str(), self.arch.as_str(), "*")
    }

    /// Asks for the build of this package. An idle package whose architecture
    /// is supported waits for a permit, and `true` is returned: the build is
    /// to be queued. An idle package of another architecture is closed as
    /// unsupported. A package that is not idle is left alone.
    pub fn build(&mut self, supported: &Vec<String>) -> (queued: bool)
        ensures
            TargetView::Derivation(final(self)@) == TargetView::Derivation(old(self)@).after_build(
                strings_view(supported@),
            ),
            queued == (old(self).status@ is Idle && strings_view(supported@).contains(
                old(self).arch@,
            )),
    {
        match self.status {
            PackageBuildStatus::Idle => {
                if is_supported(supported, self.arch.as_str()) {
                    self.status = PackageBuildStatus::WaitingForBuild;
                    true
                } else {
                    self.status = PackageBuildStatus::UnsupportedArchitecture(self.arch.clone());
                    false
                }
            },
            _ => false,
        }
    }
}

impl NixosConfigPackage {
    /// Asks for the build of this system configuration. An idle one waits for
    /// a permit, and `true` is returned: the build is to be queued.
    pub fn build(&mut self) -> (queued: bool)
        ensures
            forall|supported: Seq<Seq<char>>|
                TargetView::NixosConfig(final(self)@) == (#[trigger] TargetView::NixosConfig(
                    old(self)@,
                ).after_build(supported)),
            queued == (old(self).status@ is Idle),
    {
        match self.status {
            PackageBuildStatus::Idle => {
                self.status = PackageBuildStatus::WaitingForBuild;
                true
            },
            _ => false,
        }
    }
}

impl PackageEnum {
    /// The URL handed to the build tool.
    pub fn flake_url(&self) -> (r: &String)
        ensures
            r@ == self@.flake_url(),
    {
        match self {
            PackageEnum::Derivation(p) => &p.flake_url,
            PackageEnum::NixosConfig(c) => &c.flake_url,
        }
    }

    /// The manifest path under which the target is built.
    pub fn path(&self) -> (r: &String)
        ensures
            r@ == self@.path(),
    {
        match self {
            PackageEnum::Derivation(p) => &p.path,
            PackageEnum::NixosConfig(c) => &c.path,
        }
    }

    /// The build status.
    pub fn status(&self) -> (r: &PackageBuildStatus)
        ensures
            r@ == self@.status(),
    {
        match self {
            PackageEnum::Derivation(p) => &p.status,
            PackageEnum::NixosConfig(c) => &c.status,
        }
    }

    /// Asks for the build of this target. Returns whether it now waits for a
    /// permit, and so whether the build is to be queued.
    pub fn build(&mut self, supported: &Vec<String>) -> (queued: bool)
        ensures
            final(self)@ == old(self)@.after_build(strings_view(supported@)),
            queued == (old(self)@.status() is Idle && old(self)@.buildable(
                strings_view(supported@),
            )),
    {
        match self {
            PackageEnum::Derivation(p) => p.build(supported),
            PackageEnum::NixosConfig(c) => c.build(),
        }
    }

    /// Records that a permit of the build pool was granted. Returns whether
    /// the target was waiting for one, and so whether the tool is to run.
    pub fn start(&mut self) -> (started: bool)
        ensures
            final(self)@ == old(self)@.after_start(),
            started == (old(self)@.status() is WaitingForBuild),
    {
        match self {
            PackageEnum::Derivation(p) => p.status.start(),
            PackageEnum::NixosConfig(c) => c.status.start(),
        }
    }

    /// Records how the build ended. Returns whether the target was building.
    pub fn finish(&mut self, result: Result<String, String>) -> (finished: bool)
        ensures
            final(self)@ == old(self)@.after_finish(
                match result {
                    Ok(p) => Ok(p@),
                    Err(m) => Err(m@),
                },
            ),
            finished == (old(self)@.status() is Building),
    {
        match self {
            PackageEnum::Derivation(p) => p.status.finish(result),
            PackageEnum::NixosConfig(c) => c.status.finish(result),
        }
    }
}

/// Something that happens to a target on its way through the build pool.
pub enum TargetEvent {
    /// Its build is asked for, with the supported architectures.
    Build(Seq<Seq<char>>),
    /// A permit of the build pool is granted to it.
    Start,
    /// Its build has ended.
    Finish(Result<Seq<char>, Seq<char>>),
}

/// The target after `event`.
pub open spec fn target_after(target: TargetView, event: TargetEvent) -> TargetView {
    match event {
        TargetEvent::Build(supported) => target.after_build(supported),
        TargetEvent::Start => target.after_start(),
        TargetEvent::Finish(result) => target.after_finish(result),
    }
}

/// Whether `event` makes the build tool run for `target`: only the grant of a
/// permit to a waiting target does.
pub open spec fn invokes_tool(target: TargetView, event: TargetEvent) -> bool {
    event is Start && target.status() is WaitingForBuild
}

/// The target after all of `events`, in order.
pub open spec fn target_after_all(target: TargetView, events: Seq<TargetEvent>) -> TargetView
    decreases events.len(),
{
    if events.len() == 0 {
        target
    } else {
        target_after_all(target_after(target, events.first()), events.drop_first())
    }
}

/// How often the build tool runs for `target` in the course of `events`.
pub open spec fn tool_runs(target: TargetView, events: Seq<TargetEvent>) -> nat
    decreases events.len(),
{
    if events.len() == 0 {
        0
    } else {
        tool_runs(target_after(target, events.first()), events.drop_first()) + if invokes_tool(
            target,
            events.first(),
        ) {
            1nat
        } else {
            0nat
        }
    }
}

/// A target in a final state stays as it is whatever happens, and the build
/// tool never runs for it again.
pub proof fn lemma_terminal_stays(target: TargetView, events: Seq<TargetEvent>)
    requires
        target.status().is_terminal(),
    ensures
        target_after_all(target, events) == target,
        tool_runs(target, events) == 0,
    decreases events.len(),
{
    if events.len() > 0 {
        assert(target_after(target, events.first()) == target);
        lemma_terminal_stays(target, events.drop_first());
    }
}

/// An idle package whose architecture tag is not among the supported ones is
/// closed as `UnsupportedArchitecture` with that tag once its build is asked
/// for. Whatever happens afterwards, that stays its status and the build tool
/// never runs for it.
pub proof fn lemma_unsupported_never_builds(
    package: PackageView,
    supported: Seq<Seq<char>>,
    later: Seq<TargetEvent>,
)
    requires
        package.status is Idle,
        !supported.contains(package.arch),
    ensures
        target_after_all(
            TargetView::Derivation(package),
            seq![TargetEvent::Build(supported)] + later,
        ).status() == BuildStatusView::UnsupportedArchitecture(package.arch),
        tool_runs(TargetView::Derivation(package), seq![TargetEvent::Build(supported)] + later)
            == 0,
{
    let target = TargetView::Derivation(package);
    let events = seq![TargetEvent::Build(supported)] + later;
    assert(events.first() == TargetEvent::Build(supported));
    assert(events.drop_first() =~= later);
    lemma_terminal_stays(target.after_build(supported), later);
}

} // verus!
