use vstd::prelude::*;
use crate::catalog::{lookup, TargetCache};
use crate::error::GError;
use crate::pipeline::{Installation, Stage};
use crate::registry::{install_path_of, is_active_in, installed, list_spec, remove_spec, activate_spec, InstalledVersion, Registry};
use crate::target::{copy_target, kind_dir, kind_dir_name, target_view, Target, TargetTy};
use crate::text::{trim, trim_of};

verus! {

/// What the host probe reported of the running machine.
#[derive(Debug)]
pub struct GMetadata {
    pub machine: String,
    pub system: String,
}

/// The identifier that a host probe's output stands for: the output without
/// surrounding white space, or empty when the probe could not run.
pub open spec fn probe_value(o: Option<String>) -> Seq<char> {
    match o {
        Some(s) => trim_of(s@),
        None => Seq::empty(),
    }
}

/// The search path with the active version of `kind` under `root` in front.
pub open spec fn shell_path_of(root: Seq<char>, kind: TargetTy, path: Seq<char>) -> Seq<char> {
    let dir = root + seq!['/'] + kind_dir(kind) + seq!['/', 'c', 'u', 'r', 'r', 'e', 'n', 't', '/', 'b', 'i', 'n'];
    if path.len() == 0 {
        dir
    } else {
        dir + seq![':'] + path
    }
}

fn probe_identifier(o: Option<String>) -> (r: String)
    ensures
        r@ == probe_value(o),
{
    match o {
        Some(s) => trim(s.as_str()),
        None => String::new(),
    }
}

/// The toolchain manager: host identity, remote catalog, the selected target
/// and the installed versions.
#[derive(Debug)]
pub struct G {
    pub metadata: GMetadata,
    pub target_cache: TargetCache,
    pub target: Option<Target>,
    pub registry: Registry,
}

impl G {
    /// Whether the catalog and the registry hold their invariants.
    pub open spec fn wf(&self) -> bool {
        self.target_cache.wf() && self.registry.wf()
    }

    /// A manager for a host whose probe gave `machine` and `system`
    /// (`None` where the probe failed), with an empty catalog, no target
    /// and nothing installed.
    pub fn new(machine: Option<String>, system: Option<String>) -> (r: Self)
        ensures
            r.wf(),
            r.metadata.machine@ == probe_value(machine),
            r.metadata.system@ == probe_value(system),
            r.target is None,
            r.target_cache@ == Map::<(TargetTy, Seq<char>), Seq<char>>::empty(),
            r.registry@ == Seq::<crate::registry::InstalledModel>::empty(),
    {
        let machine = probe_identifier(machine);
        let system = probe_identifier(system);
        G {
            metadata: GMetadata { machine, system },
            target_cache: TargetCache::new(),
            target: None,
            registry: Registry::new(),
        }
    }

    /// The same manager with `target` selected.
    pub fn target(self, target: Target) -> (r: Self)
        ensures
            target_view(r.target) == Some(target@),
            r.metadata == self.metadata,
            r.target_cache == self.target_cache,
            r.registry == self.registry,
    {
        G { metadata: self.metadata, target_cache: self.target_cache, target: Some(target), registry: self.registry }
    }

    /// Starts installing the selected target. The prefix root must be given
    /// and non-empty; the location is the one given, or else the catalog's.
    pub fn download_and_install(&self, prefix_root: Option<String>, location: Option<String>) -> (r: Result<
        Installation,
        GError,
    >)
        requires
            self.wf(),
        ensures
            (prefix_root is None || prefix_root.unwrap()@.len() == 0) ==> r == Err::<Installation, GError>(
                GError::ConfigurationError,
            ),
            (prefix_root is Some && prefix_root.unwrap()@.len() > 0) ==> match self.target {
                None => r == Err::<Installation, GError>(GError::UnresolvedTarget),
                Some(t) => match location {
                    Some(l) => r is Ok && r.unwrap()@.location == l@,
                    None => match lookup(self.target_cache@, t@) {
                        Some(l) => r is Ok && r.unwrap()@.location == l,
                        None => r == Err::<Installation, GError>(GError::UnresolvedTarget),
                    },
                },
            },
            r is Ok ==> (self.target is Some && r.unwrap()@.target == self.target.unwrap()@
                && r.unwrap()@.stage == Stage::Resolved && r.unwrap()@.attempts == 0 && r.unwrap().wf()
                && r.unwrap()@.prefix == install_path_of(prefix_root.unwrap()@, self.target.unwrap()@)),
    {
        let root = match prefix_root {
            None => {
                return Err(GError::ConfigurationError);
            },
            Some(root) => root,
        };
        if root.as_str().is_empty() {
            return Err(GError::ConfigurationError);
        }
        let t = match &self.target {
            None => {
                return Err(GError::UnresolvedTarget);
            },
            Some(t) => t,
        };
        let location = match location {
            Some(l) => l,
            None => match self.target_cache.resolve(t) {
                Some(l) => l,
                None => {
                    return Err(GError::UnresolvedTarget);
                },
            },
        };
        Ok(Installation::new(copy_target(t), location, root.as_str()))
    }

    /// Makes `target` the active version of its kind.
    pub fn switch(&mut self, target: &Target) -> (r: Result<(), GError>)
        requires
            old(self).wf(),
        ensures
            final(self).wf(),
            final(self).target_cache == old(self).target_cache,
            installed(old(self).registry@, target@) ==> r is Ok && final(self).registry@ == activate_spec(
                old(self).registry@,
                target@,
            ),
            !installed(old(self).registry@, target@) ==> r == Err::<(), GError>(GError::UnknownVersion)
                && final(self).registry@ == old(self).registry@,
    {
        self.registry.activate(target)
    }

    /// Removes `target`; the active version only when `force` is set.
    pub fn remove(&mut self, target: &Target, force: bool) -> (r: Result<(), GError>)
        requires
            old(self).wf(),
        ensures
            final(self).wf(),
            final(self).target_cache == old(self).target_cache,
            !installed(old(self).registry@, target@) ==> r == Err::<(), GError>(GError::UnknownVersion)
                && final(self).registry@ == old(self).registry@,
            installed(old(self).registry@, target@) && is_active_in(old(self).registry@, target@) && !force
                ==> r == Err::<(), GError>(GError::CannotRemoveActive) && final(self).registry@ == old(
                self,
            ).registry@,
            installed(old(self).registry@, target@) && (!is_active_in(old(self).registry@, target@) || force)
                ==> r is Ok && final(self).registry@ == remove_spec(old(self).registry@, target@),
    {
        self.registry.remove(target, force)
    }

    /// The search path `path` with the active `kind` toolchain's `bin`
    /// directory under `prefix_root` in front.
    pub fn adjust_shell_path(&self, prefix_root: &str, kind: TargetTy, path: &str) -> (r: String)
        ensures
            r@ == shell_path_of(prefix_root@, kind, path@),
    {
        proof {
            reveal_strlit("/");
            reveal_strlit("/current/bin");
            reveal_strlit(":");
            assert("/"@ =~= seq!['/']);
            assert(":"@ =~= seq![':']);
            assert("/current/bin"@ =~= seq!['/', 'c', 'u', 'r', 'r', 'e', 'n', 't', '/', 'b', 'i', 'n']);
        }
        let dir = prefix_root.to_owned().concat("/").concat(kind_dir_name(kind)).concat("/current/bin");
        if path.is_empty() {
            proof {
                assert(dir@ =~= shell_path_of(prefix_root@, kind, path@));
            }
            dir
        } else {
            let r = dir.concat(":").concat(path);
            proof {
                assert(r@ =~= shell_path_of(prefix_root@, kind, path@));
            }
            r
        }
    }

    /// The installed versions of `kind`, the active one marked.
    pub fn list_installed(&self, kind: TargetTy) -> (r: Vec<InstalledVersion>)
        ensures
            r@.map_values(|v: InstalledVersion| v@) == list_spec(self.registry@, kind),
    {
        self.registry.list(kind)
    }
}

} // verus!
