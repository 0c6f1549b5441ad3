//! Runtime provisioning as an explicit state machine. The decisions — what
//! to do next, and how the answer to one step changes the state — are pure
//! and verified here; the caller performs each emitted action (a path check,
//! a download, a directory creation, an archive extraction) and reports its
//! outcome. The fast path is idempotency: a machine told that the executable
//! already exists finishes at once and never asks for a fetch.

use vstd::prelude::*;

use crate::fetch::FetchError;
use crate::install::InstallError;
use crate::paths::{get_deno_dir, join_path, spec_join};
use crate::platform::{resolve, spec_resolve};

verus! {

/// Why provisioning failed.
#[derive(Debug)]
pub enum ProvisionError {
    /// The host platform is outside the supported table.
    UnsupportedPlatform { os: String, arch: String },
    /// The artifact could not be fetched.
    Fetch(FetchError),
    /// The fetched archive could not be installed.
    Install(InstallError),
}

/// Where a provisioning run stands.
#[derive(Clone, Copy, Debug, PartialEq, Eq, Structural)]
pub enum Phase {
    /// Waiting to learn whether the executable is already on disk.
    Checking,
    /// The executable is missing; waiting for the artifact bytes.
    Fetching,
    /// Waiting for the runtime directory to be created.
    Preparing,
    /// Waiting for the archive to be extracted into the runtime directory.
    Installing,
    /// The executable's path is ready to hand out.
    Done,
    /// A step failed; the run is over.
    Failed,
}

/// What the caller must do next.
#[derive(Clone, Copy, Debug, PartialEq, Eq, Structural)]
pub enum ProvisionAction {
    /// Test whether a file exists at `exe_path`.
    CheckExists,
    /// Download the release asset named `artifact_name`.
    FetchArtifact,
    /// Create `runtime_dir` (and its parents) if missing.
    CreateDir,
    /// Extract the fetched archive into `runtime_dir`.
    InstallArchive,
    /// Hand `exe_path` to the caller; provisioning succeeded.
    Finish,
    /// Report the recorded failure; provisioning is over.
    Report,
}

/// The provisioning state machine.
#[derive(Debug)]
pub struct Provisioner {
    /// The resolved artifact file name.
    pub artifact_name: String,
    /// The directory that holds the runtime.
    pub runtime_dir: String,
    /// The expected path of the runtime executable.
    pub exe_path: String,
    /// Where the run stands.
    pub phase: Phase,
}

/// The action each phase asks of the caller.
pub open spec fn spec_next_action(phase: Phase) -> ProvisionAction {
    match phase {
        Phase::Checking => ProvisionAction::CheckExists,
        Phase::Fetching => ProvisionAction::FetchArtifact,
        Phase::Preparing => ProvisionAction::CreateDir,
        Phase::Installing => ProvisionAction::InstallArchive,
        Phase::Done => ProvisionAction::Finish,
        Phase::Failed => ProvisionAction::Report,
    }
}

/// How the existence answer moves the machine: present means done, absent
/// means fetch.
pub open spec fn spec_on_checked(phase: Phase, exists: bool) -> Phase {
    if exists {
        Phase::Done
    } else {
        Phase::Fetching
    }
}

/// How a step outcome moves the machine: success advances to the next phase,
/// failure ends the run.
pub open spec fn spec_on_step(next: Phase, ok: bool) -> Phase {
    if ok {
        next
    } else {
        Phase::Failed
    }
}

impl Provisioner {
    /// Starts provisioning for the given platform under `root_dir`: resolves
    /// the artifact, fixes the runtime directory and the expected executable
    /// path, and begins with the existence check. An unsupported platform is
    /// reported at once, carrying the offending values.
    pub fn start(root_dir: &str, os: &str, arch: &str) -> (r: Result<Provisioner, ProvisionError>)
        ensures
            match r {
                Ok(p) => {
                    &&& spec_resolve(os@, arch@) matches Some((archive, exe))
                        && p.artifact_name@ == archive && p.exe_path@ == spec_join(
                        spec_join(root_dir@, "deno"@),
                        exe,
                    )
                    &&& p.runtime_dir@ == spec_join(root_dir@, "deno"@)
                    &&& p.phase == Phase::Checking
                },
                Err(e) => {
                    &&& spec_resolve(os@, arch@) is None
                    &&& e matches ProvisionError::UnsupportedPlatform { os: eo, arch: ea }
                        && eo@ == os@ && ea@ == arch@
                },
            },
    {
        let descriptor = match resolve(os, arch) {
            Ok(d) => d,
            Err(u) => {
                return Err(ProvisionError::UnsupportedPlatform { os: u.os, arch: u.arch });
            },
        };
        let runtime_dir = get_deno_dir(root_dir);
        let exe_path = join_path(runtime_dir.as_str(), descriptor.executable_name.as_str());
        Ok(
            Provisioner {
                artifact_name: descriptor.archive_name,
                runtime_dir,
                exe_path,
                phase: Phase::Checking,
            },
        )
    }

    /// The action the caller must perform next.
    pub fn next_action(&self) -> (a: ProvisionAction)
        ensures
            a == spec_next_action(self.phase),
    {
        match self.phase {
            Phase::Checking => ProvisionAction::CheckExists,
            Phase::Fetching => ProvisionAction::FetchArtifact,
            Phase::Preparing => ProvisionAction::CreateDir,
            Phase::Installing => ProvisionAction::InstallArchive,
            Phase::Done => ProvisionAction::Finish,
            Phase::Failed => ProvisionAction::Report,
        }
    }

    /// Reports whether the executable already exists. Present: the run is
    /// done, no fetch will be asked for. Absent: the artifact must be
    /// fetched.
    pub fn on_checked(&mut self, exists: bool)
        requires
            old(self).phase == Phase::Checking,
        ensures
            final(self).phase == spec_on_checked(old(self).phase, exists),
            final(self).artifact_name == old(self).artifact_name,
            final(self).runtime_dir == old(self).runtime_dir,
            final(self).exe_path == old(self).exe_path,
    {
        self.phase = if exists {
            Phase::Done
        } else {
            Phase::Fetching
        };
    }

    /// Reports the outcome of the fetch.
    pub fn on_fetch_result(&mut self, ok: bool)
        requires
            old(self).phase == Phase::Fetching,
        ensures
            final(self).phase == spec_on_step(Phase::Preparing, ok),
            final(self).artifact_name == old(self).artifact_name,
            final(self).runtime_dir == old(self).runtime_dir,
            final(self).exe_path == old(self).exe_path,
    {
        self.phase = if ok {
            Phase::Preparing
        } else {
            Phase::Failed
        };
    }

    /// Reports the outcome of creating the runtime directory.
    pub fn on_dir_result(&mut self, ok: bool)
        requires
            old(self).phase == Phase::Preparing,
        ensures
            final(self).phase == spec_on_step(Phase::Installing, ok),
            final(self).artifact_name == old(self).artifact_name,
            final(self).runtime_dir == old(self).runtime_dir,
            final(self).exe_path == old(self).exe_path,
    {
        self.phase = if ok {
            Phase::Installing
        } else {
            Phase::Failed
        };
    }

    /// Reports the outcome of extracting the archive.
    pub fn on_install_result(&mut self, ok: bool)
        requires
            old(self).phase == Phase::Installing,
        ensures
            final(self).phase == spec_on_step(Phase::Done, ok),
            final(self).artifact_name == old(self).artifact_name,
            final(self).runtime_dir == old(self).runtime_dir,
            final(self).exe_path == old(self).exe_path,
    {
        self.phase = if ok {
            Phase::Done
        } else {
            Phase::Failed
        };
    }
}

/// Idempotency of provisioning: when the executable is already present, the
/// machine finishes at once — the phase after the existence check is `Done`,
/// whose only action is `Finish`, never a fetch. The `Fetching` phase can
/// only ever follow an existence check that answered "absent", so a second
/// provisioning run over an installed runtime performs no network step.
pub proof fn lemma_fast_path(phase: Phase)
    ensures
        spec_on_checked(phase, true) == Phase::Done,
        spec_next_action(spec_on_checked(phase, true)) == ProvisionAction::Finish,
        forall|answer: bool| spec_on_checked(phase, answer) == Phase::Fetching ==> !answer,
{
}

} // verus!
