use vstd::prelude::*;
use crate::checksum::{digests_agree, verify_checksums};
use crate::error::GError;
use crate::registry::{install_path, install_path_of, record_spec, Registry};
use crate::target::{copy_target, Target, TargetTy};

verus! {

/// How many times a download is tried before the installation fails.
pub const MAX_DOWNLOAD_ATTEMPTS: u32 = 3;

/// Where an installation stands. `Installed` and `Failed` are final.
#[derive(PartialEq, Eq, Structural, Clone, Copy, Debug)]
pub enum Stage {
    Resolved,
    Downloaded,
    Verified,
    Unpacked,
    Built,
    Installed,
    Failed(GError),
}

/// What the outside world reports after carrying out an action.
#[derive(Debug)]
pub enum Event {
    /// The artifact is in the scratch directory.
    DownloadSucceeded,
    /// The download attempt failed.
    DownloadFailed,
    /// The digest computed for the artifact, and the published one.
    Digests { local: String, reference: String },
    /// The top-level entries that unpacking the archive produced.
    Unpacked { top_level: Vec<String> },
    /// Configure and build went through.
    BuildSucceeded,
    /// Configure or build failed.
    BuildFailed,
    /// The built tree now stands at the install path.
    MovedIntoPlace,
}

/// What the outside world is asked to do next.
#[derive(Debug, PartialEq)]
pub enum Action {
    /// Fetch the artifact at `location` into the scratch directory.
    Download { location: String },
    /// Compute the artifact's digest and fetch the published one.
    ComputeChecksum,
    /// Unpack the artifact in the scratch directory.
    Unpack,
    /// Configure `source_root` with the install prefix `prefix`, then build.
    Build { source_root: String, prefix: String },
    /// Move the built tree to `prefix` in one step.
    MoveIntoPlace { prefix: String },
    /// Remove the scratch directory; the installation is over.
    Cleanup,
}

/// One installation of a target, from a resolved location to an installed
/// tree. Its stage moves only through `advance`.
pub struct Installation {
    target: Target,
    location: String,
    prefix: String,
    stage: Stage,
    attempts: u32,
    source_root: Option<String>,
    checked: Ghost<bool>,
}

/// What an installation holds: its target, where it comes from and goes
/// to, its stage, the failed downloads so far, the unpacked source root,
/// and whether its artifact passed the checksum gate.
pub struct InstallationModel {
    pub target: (TargetTy, Seq<char>),
    pub location: Seq<char>,
    pub prefix: Seq<char>,
    pub stage: Stage,
    pub attempts: u32,
    pub source_root: Option<Seq<char>>,
    pub passed_checksum: bool,
}

impl View for Installation {
    type V = InstallationModel;

    closed spec fn view(&self) -> InstallationModel {
        InstallationModel {
            target: self.target@,
            location: self.location@,
            prefix: self.prefix@,
            stage: self.stage,
            attempts: self.attempts,
            source_root: match self.source_root {
                Some(s) => Some(s@),
                None => None,
            },
            passed_checksum: self.checked@,
        }
    }
}

/// The stage and attempt count after `e` happened in stage `st` with
/// `attempts` failed downloads so far. An event that does not belong to the
/// stage changes nothing.
pub open spec fn step(st: Stage, attempts: u32, e: Event) -> (Stage, u32) {
    match (st, e) {
        (Stage::Resolved, Event::DownloadSucceeded) => (Stage::Downloaded, attempts),
        (Stage::Resolved, Event::DownloadFailed) => if attempts + 1 >= MAX_DOWNLOAD_ATTEMPTS {
            (Stage::Failed(GError::DownloadFailed), (attempts + 1) as u32)
        } else {
            (Stage::Resolved, (attempts + 1) as u32)
        },
        (Stage::Downloaded, Event::Digests { local, reference }) => if digests_agree(local@, reference@) {
            (Stage::Verified, attempts)
        } else {
            (Stage::Failed(GError::ChecksumMismatch), attempts)
        },
        (Stage::Verified, Event::Unpacked { top_level }) => if top_level@.len() == 1 {
            (Stage::Unpacked, attempts)
        } else {
            (Stage::Failed(GError::AmbiguousArchiveLayout), attempts)
        },
        (Stage::Unpacked, Event::BuildSucceeded) => (Stage::Built, attempts),
        (Stage::Unpacked, Event::BuildFailed) => (Stage::Failed(GError::BuildFailed), attempts),
        (Stage::Built, Event::MovedIntoPlace) => (Stage::Installed, attempts),
        _ => (st, attempts),
    }
}

/// Whether a stage is final.
pub open spec fn is_final(st: Stage) -> bool {
    st == Stage::Installed || st is Failed
}

/// The position of a stage on the way to an installed tree.
pub open spec fn rank(st: Stage) -> int {
    match st {
        Stage::Resolved => 0,
        Stage::Downloaded => 1,
        Stage::Verified => 2,
        Stage::Unpacked => 3,
        Stage::Built => 4,
        Stage::Installed => 5,
        Stage::Failed(_) => -1,
    }
}

/// Each transition keeps the stage, fails, or moves exactly one stage on;
/// a final stage never changes; and the only way into `Verified` is a pair
/// of agreeing digests. So no run reaches `Unpacked`, `Built` or
/// `Installed` without having passed the checksum gate.
pub proof fn lemma_step_order(st: Stage, attempts: u32, e: Event)
    ensures
        ({
            let next = step(st, attempts, e).0;
            &&& next == st || next is Failed || rank(next) == rank(st) + 1
            &&& is_final(st) ==> next == st
            &&& (next == Stage::Verified && st != Stage::Verified) ==> st == Stage::Downloaded && e is Digests
            &&& (next == Stage::Verified && st != Stage::Verified) ==> (e matches Event::Digests { local, reference }
                ==> digests_agree(local@, reference@))
        }),
{
}

impl Installation {
    /// Whether the fields agree: an attempt count within the bound, with one
    /// attempt left while a download is due; a known source root from
    /// unpacking on; and, from `Verified` on, an artifact whose digest
    /// matched the published one.
    pub open spec fn wf(&self) -> bool {
        &&& self@.attempts <= MAX_DOWNLOAD_ATTEMPTS
        &&& self@.stage == Stage::Resolved ==> self@.attempts < MAX_DOWNLOAD_ATTEMPTS
        &&& (self@.stage == Stage::Unpacked || self@.stage == Stage::Built || self@.stage == Stage::Installed)
            ==> self@.source_root is Some
        &&& rank(self@.stage) >= 2 ==> self@.passed_checksum
    }

    /// Starts the installation of `target` from `location` into
    /// `<prefix_root>/<kind>/<version>`.
    pub fn new(target: Target, location: String, prefix_root: &str) -> (r: Self)
        ensures
            r.wf(),
            r@.target == target@,
            r@.location == location@,
            r@.prefix == install_path_of(prefix_root@, target@),
            r@.stage == Stage::Resolved,
            r@.attempts == 0,
            r@.source_root is None,
            !r@.passed_checksum,
    {
        let prefix = install_path(prefix_root, &target);
        Installation {
            target,
            location,
            prefix,
            stage: Stage::Resolved,
            attempts: 0,
            source_root: None,
            checked: Ghost(false),
        }
    }

    /// The target being installed.
    pub fn target(&self) -> (r: &Target)
        ensures
            r@ == self@.target,
    {
        &self.target
    }

    /// Where the artifact comes from.
    pub fn location(&self) -> (r: &String)
        ensures
            r@ == self@.location,
    {
        &self.location
    }

    /// Where the installed tree goes.
    pub fn prefix(&self) -> (r: &String)
        ensures
            r@ == self@.prefix,
    {
        &self.prefix
    }

    /// The current stage.
    pub fn stage(&self) -> (r: Stage)
        ensures
            r == self@.stage,
    {
        self.stage
    }

    /// The failed downloads so far.
    pub fn attempts(&self) -> (r: u32)
        ensures
            r == self@.attempts,
    {
        self.attempts
    }

    /// The action that the current stage asks for.
    pub fn next_action(&self) -> (r: Action)
        requires
            self.wf(),
        ensures
            match self@.stage {
                Stage::Resolved => r matches Action::Download { location } && location@ == self@.location,
                Stage::Downloaded => r == Action::ComputeChecksum,
                Stage::Verified => r == Action::Unpack,
                Stage::Unpacked => r matches Action::Build { source_root, prefix }
                    && source_root@ == self@.source_root.unwrap() && prefix@ == self@.prefix,
                Stage::Built => r matches Action::MoveIntoPlace { prefix } && prefix@ == self@.prefix,
                _ => r == Action::Cleanup,
            },
    {
        match self.stage {
            Stage::Resolved => Action::Download { location: self.location.clone() },
            Stage::Downloaded => Action::ComputeChecksum,
            Stage::Verified => Action::Unpack,
            Stage::Unpacked => {
                let source_root = match &self.source_root {
                    Some(s) => s.clone(),
                    None => String::new(),
                };
                Action::Build { source_root, prefix: self.prefix.clone() }
            },
            Stage::Built => Action::MoveIntoPlace { prefix: self.prefix.clone() },
            _ => Action::Cleanup,
        }
    }

    /// Moves the installation on by what the outside world reported. A
    /// mismatched digest stops it before anything is unpacked; a failed
    /// download is tried again until the attempts run out.
    pub fn advance(&mut self, event: Event)
        requires
            old(self).wf(),
        ensures
            final(self).wf(),
            (final(self)@.stage, final(self)@.attempts) == step(old(self)@.stage, old(self)@.attempts, event),
            final(self)@.target == old(self)@.target,
            final(self)@.location == old(self)@.location,
            final(self)@.prefix == old(self)@.prefix,
            old(self)@.stage == Stage::Verified ==> (event matches Event::Unpacked { top_level } ==> (
            top_level@.len() == 1 ==> final(self)@.source_root == Some(top_level@[0]@))),
            !(old(self)@.stage == Stage::Verified && event is Unpacked) ==> final(self)@.source_root
                == old(self)@.source_root,
    {
        match (self.stage, event) {
            (Stage::Resolved, Event::DownloadSucceeded) => {
                self.stage = Stage::Downloaded;
            },
            (Stage::Resolved, Event::DownloadFailed) => {
                self.attempts = self.attempts + 1;
                if self.attempts >= MAX_DOWNLOAD_ATTEMPTS {
                    self.stage = Stage::Failed(GError::DownloadFailed);
                }
            },
            (Stage::Downloaded, Event::Digests { local, reference }) => {
                if verify_checksums(local.as_str(), reference.as_str()) {
                    self.checked = Ghost(true);
                    self.stage = Stage::Verified;
                } else {
                    self.stage = Stage::Failed(GError::ChecksumMismatch);
                }
            },
            (Stage::Verified, Event::Unpacked { top_level }) => {
                if top_level.len() == 1 {
                    let mut top_level = top_level;
                    let root = top_level.pop().unwrap();
                    self.source_root = Some(root);
                    self.stage = Stage::Unpacked;
                } else {
                    self.stage = Stage::Failed(GError::AmbiguousArchiveLayout);
                }
            },
            (Stage::Unpacked, Event::BuildSucceeded) => {
                self.stage = Stage::Built;
            },
            (Stage::Unpacked, Event::BuildFailed) => {
                self.stage = Stage::Failed(GError::BuildFailed);
            },
            (Stage::Built, Event::MovedIntoPlace) => {
                self.stage = Stage::Installed;
            },
            _ => {},
        }
    }

    /// Records a finished installation in the registry. Only an installation
    /// that reached `Installed` is recorded, and its artifact passed the
    /// checksum gate; a failed one reports its reason and leaves the
    /// registry as it was.
    pub fn register(&self, registry: &mut Registry) -> (r: Result<(), GError>)
        requires
            old(registry).wf(),
            self.wf(),
            is_final(self@.stage),
        ensures
            final(registry).wf(),
            self@.stage == Stage::Installed ==> self@.passed_checksum && r is Ok && final(registry)@
                == record_spec(old(registry)@, self@.target, self@.prefix),
            self@.stage matches Stage::Failed(e) ==> r == Err::<(), GError>(e) && final(registry)@ == old(
                registry,
            )@,
    {
        match self.stage {
            Stage::Failed(e) => Err(e),
            _ => {
                registry.record_install(copy_target(&self.target), self.prefix.clone());
                Ok(())
            },
        }
    }
}

} // verus!
