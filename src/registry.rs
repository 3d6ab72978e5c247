use vstd::prelude::*;
use crate::error::GError;
use crate::target::{copy_target, kind_dir, kind_dir_name, same_text, Target, TargetTy};

verus! {

broadcast use vstd::seq_lib::group_seq_properties;

/// What the registry knows of one installed version.
pub struct InstalledModel {
    pub target: (TargetTy, Seq<char>),
    pub path: Seq<char>,
    pub active: bool,
}

/// One installed version of a toolchain.
#[derive(Debug, Clone)]
pub struct InstalledVersion {
    pub target: Target,
    pub install_path: String,
    pub is_active: bool,
}

impl View for InstalledVersion {
    type V = InstalledModel;

    open spec fn view(&self) -> InstalledModel {
        InstalledModel { target: self.target@, path: self.install_path@, active: self.is_active }
    }
}

/// A copy of a record with the same contents.
pub fn copy_installed(v: &InstalledVersion) -> (r: InstalledVersion)
    ensures
        r@ == v@,
{
    InstalledVersion {
        target: copy_target(&v.target),
        install_path: v.install_path.clone(),
        is_active: v.is_active,
    }
}

/// Whether `t` is among the installed versions.
pub open spec fn installed(s: Seq<InstalledModel>, t: (TargetTy, Seq<char>)) -> bool {
    exists|i: int| 0 <= i < s.len() && (#[trigger] s[i]).target == t
}

/// Where `t` stands among the installed versions.
pub open spec fn index_of(s: Seq<InstalledModel>, t: (TargetTy, Seq<char>)) -> int {
    choose|i: int| 0 <= i < s.len() && (#[trigger] s[i]).target == t
}

/// Whether `t` is installed and active.
pub open spec fn is_active_in(s: Seq<InstalledModel>, t: (TargetTy, Seq<char>)) -> bool {
    exists|i: int| 0 <= i < s.len() && (#[trigger] s[i]).target == t && s[i].active
}

/// The registry's invariant: each target is recorded once, and each kind has
/// at most one active version.
pub open spec fn registry_wf(s: Seq<InstalledModel>) -> bool {
    &&& forall|i: int, j: int|
        0 <= i < s.len() && 0 <= j < s.len() && i != j ==> #[trigger] s[i].target != #[trigger] s[j].target
    &&& forall|i: int, j: int|
        0 <= i < s.len() && 0 <= j < s.len() && i != j && #[trigger] s[i].active && #[trigger] s[j].active
            ==> s[i].target.0 != s[j].target.0
}

/// The registry after `t` was installed at `path`: a new version is inactive;
/// a version installed again keeps its place and whether it is active.
pub open spec fn record_spec(s: Seq<InstalledModel>, t: (TargetTy, Seq<char>), path: Seq<char>) -> Seq<InstalledModel> {
    if installed(s, t) {
        let i = index_of(s, t);
        s.update(i, InstalledModel { target: t, path, active: s[i].active })
    } else {
        s.push(InstalledModel { target: t, path, active: false })
    }
}

/// The registry after `t` was made active: of `t`'s kind exactly `t` is
/// active afterwards; other kinds are untouched.
pub open spec fn activate_spec(s: Seq<InstalledModel>, t: (TargetTy, Seq<char>)) -> Seq<InstalledModel> {
    s.map_values(|v: InstalledModel| activated(v, t))
}

/// One record after `t` was made active.
pub open spec fn activated(v: InstalledModel, t: (TargetTy, Seq<char>)) -> InstalledModel {
    if v.target.0 == t.0 {
        InstalledModel { target: v.target, path: v.path, active: v.target == t }
    } else {
        v
    }
}

/// The registry after `t` was removed.
pub open spec fn remove_spec(s: Seq<InstalledModel>, t: (TargetTy, Seq<char>)) -> Seq<InstalledModel> {
    s.remove(index_of(s, t))
}

/// The installed versions of one kind, in registry order.
pub open spec fn list_spec(s: Seq<InstalledModel>, k: TargetTy) -> Seq<InstalledModel> {
    s.filter(of_kind(k))
}

/// Whether a record is of kind `k`.
pub open spec fn of_kind(k: TargetTy) -> spec_fn(InstalledModel) -> bool {
    |v: InstalledModel| v.target.0 == k
}

/// The install path of a version: `<root>/<kind>/<version>`.
pub open spec fn install_path_of(root: Seq<char>, t: (TargetTy, Seq<char>)) -> Seq<char> {
    root + seq!['/'] + kind_dir(t.0) + seq!['/'] + t.1
}

/// The name of the active-version pointer in a kind's directory.
pub open spec fn pointer_name() -> Seq<char> {
    seq!['c', 'u', 'r', 'r', 'e', 'n', 't']
}

/// The registry after recording the version directories `names` of `kind`
/// found under `root`, in order; the active-version pointer is no version.
pub open spec fn record_all(s: Seq<InstalledModel>, root: Seq<char>, kind: TargetTy, names: Seq<Seq<char>>) -> Seq<InstalledModel>
    decreases names.len(),
{
    if names.len() == 0 {
        s
    } else {
        let p = record_all(s, root, kind, names.drop_last());
        let n = names.last();
        if n == pointer_name() {
            p
        } else {
            record_spec(p, (kind, n), install_path_of(root, (kind, n)))
        }
    }
}

/// The registry after a scan of one kind's directory: its versions recorded,
/// and the version that the pointer names made active when it is installed.
pub open spec fn scan_spec(
    s: Seq<InstalledModel>,
    root: Seq<char>,
    kind: TargetTy,
    names: Seq<Seq<char>>,
    current: Option<Seq<char>>,
) -> Seq<InstalledModel> {
    let r = record_all(s, root, kind, names);
    match current {
        Some(c) => if installed(r, (kind, c)) {
            activate_spec(r, (kind, c))
        } else {
            r
        },
        None => r,
    }
}

/// The install path of a target under a prefix root: `<root>/<kind>/<version>`.
pub fn install_path(root: &str, target: &Target) -> (r: String)
    ensures
        r@ == install_path_of(root@, target@),
{
    proof {
        reveal_strlit("/");
        assert("/"@ =~= seq!['/']);
    }
    let r = root.to_owned().concat("/").concat(kind_dir_name(target.target_ty)).concat("/").concat(
        target.version.as_str(),
    );
    proof {
        assert(r@ =~= install_path_of(root@, target@));
    }
    r
}

proof fn lemma_index_of(s: Seq<InstalledModel>, t: (TargetTy, Seq<char>), i: int)
    requires
        registry_wf(s),
        0 <= i < s.len(),
        s[i].target == t,
    ensures
        index_of(s, t) == i,
        installed(s, t),
{
    let k = index_of(s, t);
    assert(0 <= k < s.len() && s[k].target == t);
}

/// The installed versions of a host, and which one of each kind is active.
#[derive(Debug)]
pub struct Registry {
    versions: Vec<InstalledVersion>,
}

impl View for Registry {
    type V = Seq<InstalledModel>;

    closed spec fn view(&self) -> Seq<InstalledModel> {
        self.versions@.map_values(|v: InstalledVersion| v@)
    }
}

impl Registry {
    /// Whether the registry holds its invariant.
    pub open spec fn wf(&self) -> bool {
        registry_wf(self@)
    }

    /// A registry with nothing installed.
    pub fn new() -> (r: Self)
        ensures
            r.wf(),
            r@ == Seq::<InstalledModel>::empty(),
    {
        let r = Registry { versions: Vec::new() };
        proof {
            assert(r@ =~= Seq::<InstalledModel>::empty());
        }
        r
    }

    /// Where `t` stands in the registry, if it is installed.
    pub fn find(&self, t: &Target) -> (r: Option<usize>)
        requires
            self.wf(),
        ensures
            match r {
                Some(i) => i < self@.len() && self@[i as int].target == t@ && index_of(self@, t@) == i,
                None => !installed(self@, t@),
            },
    {
        let mut i: usize = 0;
        while i < self.versions.len()
            invariant
                self.wf(),
                0 <= i <= self.versions@.len(),
                forall|j: int| 0 <= j < i ==> (#[trigger] self@[j]).target != t@,
            decreases self.versions@.len() - i,
        {
            if self.versions[i].target == *t {
                proof {
                    lemma_index_of(self@, t@, i as int);
                }
                return Some(i);
            }
            i = i + 1;
        }
        None
    }

    /// Records that `target` is installed at `install_path`.
    pub fn record_install(&mut self, target: Target, install_path: String)
        requires
            old(self).wf(),
        ensures
            final(self).wf(),
            final(self)@ == record_spec(old(self)@, target@, install_path@),
    {
        match self.find(&target) {
            Some(i) => {
                let active = self.versions[i].is_active;
                let v = InstalledVersion { target, install_path, is_active: active };
                self.versions.set(i, v);
                proof {
                    assert(self@ =~= record_spec(old(self)@, v.target@, v.install_path@));
                }
            },
            None => {
                let v = InstalledVersion { target, install_path, is_active: false };
                self.versions.push(v);
                proof {
                    assert(self@ =~= record_spec(old(self)@, v.target@, v.install_path@));
                }
            },
        }
    }

    /// Makes `target` the active version of its kind; every other version of
    /// that kind stops being active in the same step.
    pub fn activate(&mut self, target: &Target) -> (r: Result<(), GError>)
        requires
            old(self).wf(),
        ensures
            final(self).wf(),
            installed(old(self)@, target@) ==> r is Ok && final(self)@ == activate_spec(old(self)@, target@),
            !installed(old(self)@, target@) ==> r == Err::<(), GError>(GError::UnknownVersion)
                && final(self)@ == old(self)@,
    {
        if self.find(target).is_none() {
            return Err(GError::UnknownVersion);
        }
        let ghost s0 = self@;
        let mut i: usize = 0;
        while i < self.versions.len()
            invariant
                0 <= i <= self.versions@.len(),
                self@.len() == s0.len(),
                forall|j: int| 0 <= j < i ==> #[trigger] self@[j] == activated(s0[j], target@),
                forall|j: int| i <= j < self@.len() ==> #[trigger] self@[j] == s0[j],
            decreases self.versions@.len() - i,
        {
            let ghost before = self@;
            proof {
                assert(before[i as int] == s0[i as int]);
                assert(self.versions@[i as int]@ == before[i as int]);
            }
            if self.versions[i].target.target_ty == target.target_ty {
                let same = self.versions[i].target == *target;
                assert(same == (s0[i as int].target == target@));
                let v = InstalledVersion {
                    target: copy_target(&self.versions[i].target),
                    install_path: self.versions[i].install_path.clone(),
                    is_active: same,
                };
                self.versions.set(i, v);
                proof {
                    assert(self@ =~= before.update(i as int, v@));
                    assert(v@ == activated(s0[i as int], target@));
                }
            } else {
                assert(self@[i as int] == s0[i as int]);
                assert(activated(s0[i as int], target@) == s0[i as int]);
            }
            i = i + 1;
        }
        proof {
            assert(self@ =~= activate_spec(s0, target@));
            lemma_activate_wf(s0, target@);
        }
        Ok(())
    }

    /// Removes `target`. The active version is kept unless `force` is set.
    pub fn remove(&mut self, target: &Target, force: bool) -> (r: Result<(), GError>)
        requires
            old(self).wf(),
        ensures
            final(self).wf(),
            !installed(old(self)@, target@) ==> r == Err::<(), GError>(GError::UnknownVersion)
                && final(self)@ == old(self)@,
            installed(old(self)@, target@) && is_active_in(old(self)@, target@) && !force
                ==> r == Err::<(), GError>(GError::CannotRemoveActive) && final(self)@ == old(self)@,
            installed(old(self)@, target@) && (!is_active_in(old(self)@, target@) || force)
                ==> r is Ok && final(self)@ == remove_spec(old(self)@, target@),
    {
        match self.find(target) {
            None => Err(GError::UnknownVersion),
            Some(i) => {
                proof {
                    if is_active_in(self@, target@) {
                        let k = choose|k: int| 0 <= k < self@.len() && (#[trigger] self@[k]).target == target@ && self@[k].active;
                        assert(k == i);
                    }
                }
                if self.versions[i].is_active && !force {
                    return Err(GError::CannotRemoveActive);
                }
                let ghost s0 = self@;
                self.versions.remove(i);
                proof {
                    assert(self@ =~= s0.remove(i as int));
                    assert(registry_wf(self@)) by {
                        assert forall|a: int| 0 <= a < self@.len() implies #[trigger] self@[a] == s0[if a < i { a } else { a + 1 }] by {}
                    }
                }
                Ok(())
            },
        }
    }

    /// Records the result of scanning one kind's directory under `prefix_root`:
    /// each version directory in `names`, and the version that the
    /// active-version pointer names, if any.
    pub fn record_scan(&mut self, prefix_root: &str, kind: TargetTy, names: &Vec<String>, current: Option<String>)
        requires
            old(self).wf(),
        ensures
            final(self).wf(),
            final(self)@ == scan_spec(
                old(self)@,
                prefix_root@,
                kind,
                names@.map_values(|n: String| n@),
                match current {
                    Some(c) => Some(c@),
                    None => None,
                },
            ),
    {
        let ghost s0 = self@;
        let ghost all = names@.map_values(|n: String| n@);
        proof {
            reveal_strlit("current");
            assert("current"@ =~= pointer_name());
        }
        let mut i: usize = 0;
        while i < names.len()
            invariant
                self.wf(),
                0 <= i <= names@.len(),
                all == names@.map_values(|n: String| n@),
                "current"@ == pointer_name(),
                self@ == record_all(s0, prefix_root@, kind, all.subrange(0, i as int)),
            decreases names@.len() - i,
        {
            proof {
                assert(all.subrange(0, i + 1).drop_last() =~= all.subrange(0, i as int));
                assert(all.subrange(0, i + 1).last() == names@[i as int]@);
            }
            let n = &names[i];
            if !same_text(n.as_str(), "current") {
                let t = Target { target_ty: kind, version: n.clone() };
                let path = install_path(prefix_root, &t);
                self.record_install(t, path);
            }
            i = i + 1;
        }
        proof {
            assert(all.subrange(0, names@.len() as int) =~= all);
        }
        if let Some(c) = current {
            let t = Target { target_ty: kind, version: c };
            let _ = self.activate(&t);
        }
    }

    /// The active version of a kind, if one is active.
    pub fn active_version(&self, kind: TargetTy) -> (r: Option<Target>)
        requires
            self.wf(),
        ensures
            match r {
                Some(t) => t.target_ty == kind && is_active_in(self@, t@),
                None => forall|i: int| 0 <= i < self@.len() && (#[trigger] self@[i]).target.0 == kind ==> !self@[i].active,
            },
    {
        let mut i: usize = 0;
        while i < self.versions.len()
            invariant
                0 <= i <= self.versions@.len(),
                forall|j: int| 0 <= j < i && (#[trigger] self@[j]).target.0 == kind ==> !self@[j].active,
            decreases self.versions@.len() - i,
        {
            if self.versions[i].target.target_ty == kind && self.versions[i].is_active {
                let t = copy_target(&self.versions[i].target);
                proof {
                    assert(self@[i as int].target == t@);
                }
                return Some(t);
            }
            i = i + 1;
        }
        None
    }

    /// The installed versions of one kind.
    pub fn list(&self, kind: TargetTy) -> (r: Vec<InstalledVersion>)
        ensures
            r@.map_values(|v: InstalledVersion| v@) == list_spec(self@, kind),
    {
        let ghost pred = of_kind(kind);
        let mut out: Vec<InstalledVersion> = Vec::new();
        let mut i: usize = 0;
        while i < self.versions.len()
            invariant
                0 <= i <= self.versions@.len(),
                pred == of_kind(kind),
                out@.map_values(|v: InstalledVersion| v@) == self@.subrange(0, i as int).filter(pred),
            decreases self.versions@.len() - i,
        {
            proof {
                assert(self@.subrange(0, i + 1) =~= self@.subrange(0, i as int).push(self@[i as int]));
                self@.subrange(0, i as int).lemma_filter_push(self@[i as int], pred);
            }
            if self.versions[i].target.target_ty == kind {
                let v = copy_installed(&self.versions[i]);
                out.push(v);
                proof {
                    assert(out@.map_values(|v: InstalledVersion| v@) =~= self@.subrange(0, i + 1).filter(pred));
                }
            }
            i = i + 1;
        }
        proof {
            assert(self@.subrange(0, self@.len() as int) =~= self@);
        }
        out
    }
}

/// Activation keeps the registry's invariant.
proof fn lemma_activate_wf(s: Seq<InstalledModel>, t: (TargetTy, Seq<char>))
    requires
        registry_wf(s),
    ensures
        registry_wf(activate_spec(s, t)),
{
    let a = activate_spec(s, t);
    assert forall|i: int, j: int| 0 <= i < a.len() && 0 <= j < a.len() && i != j && #[trigger] a[i].active
        && #[trigger] a[j].active implies a[i].target.0 != a[j].target.0 by {
        assert(s[i].target != s[j].target);
    }
    assert forall|i: int, j: int| 0 <= i < a.len() && 0 <= j < a.len() && i != j implies #[trigger] a[i].target
        != #[trigger] a[j].target by {
        assert(s[i].target != s[j].target);
    }
}

/// Installing a target and then listing its kind shows the target, inactive
/// unless it was already the active version.
pub proof fn lemma_install_then_list(s: Seq<InstalledModel>, t: (TargetTy, Seq<char>), path: Seq<char>)
    requires
        registry_wf(s),
        !is_active_in(s, t),
    ensures
        list_spec(record_spec(s, t, path), t.0).contains(InstalledModel { target: t, path, active: false }),
{
    let r = record_spec(s, t, path);
    let m = InstalledModel { target: t, path, active: false };
    if installed(s, t) {
        let i = index_of(s, t);
        assert(r[i] == m);
        r.lemma_filter_contains(of_kind(t.0), i);
    } else {
        assert(r[s.len() as int] == m);
        r.lemma_filter_contains(of_kind(t.0), s.len() as int);
    }
}

/// Installing a target and then making it active, with nothing in between,
/// lists it as the active version of its kind, and no other version of that
/// kind as active.
pub proof fn lemma_install_switch_list(s: Seq<InstalledModel>, t: (TargetTy, Seq<char>), path: Seq<char>)
    requires
        registry_wf(s),
    ensures
        list_spec(activate_spec(record_spec(s, t, path), t), t.0).contains(
            InstalledModel { target: t, path, active: true },
        ),
        forall|i: int|
            0 <= i < list_spec(activate_spec(record_spec(s, t, path), t), t.0).len() && (#[trigger] list_spec(
                activate_spec(record_spec(s, t, path), t),
                t.0,
            )[i]).active ==> list_spec(activate_spec(record_spec(s, t, path), t), t.0)[i].target == t,
{
    let r = record_spec(s, t, path);
    let a = activate_spec(r, t);
    let l = list_spec(a, t.0);
    let k = if installed(s, t) {
        index_of(s, t)
    } else {
        s.len() as int
    };
    assert(r[k].target == t && r[k].path == path);
    assert(a[k] == InstalledModel { target: t, path, active: true });
    a.lemma_filter_contains(of_kind(t.0), k);
    assert forall|i: int| 0 <= i < l.len() && (#[trigger] l[i]).active implies l[i].target == t by {
        a.lemma_filter_pred(of_kind(t.0), i);
        a.lemma_filter_contains_rev(of_kind(t.0), l[i]);
        let j = choose|j: int| 0 <= j < a.len() && a[j] == l[i];
        assert(a[j] == activated(r[j], t));
    }
}

/// Activating a target twice in a row is the same as activating it once, and
/// leaves exactly one active version of its kind: the target itself.
pub proof fn lemma_activate_twice(s: Seq<InstalledModel>, t: (TargetTy, Seq<char>))
    requires
        registry_wf(s),
        installed(s, t),
    ensures
        activate_spec(activate_spec(s, t), t) == activate_spec(s, t),
        is_active_in(activate_spec(activate_spec(s, t), t), t),
        forall|i: int|
            0 <= i < s.len() && (#[trigger] activate_spec(activate_spec(s, t), t)[i]).target.0 == t.0
                && activate_spec(activate_spec(s, t), t)[i].active ==> activate_spec(activate_spec(s, t), t)[i].target
                == t,
{
    let a = activate_spec(s, t);
    assert(activate_spec(a, t) =~= a);
    let i = choose|i: int| 0 <= i < s.len() && (#[trigger] s[i]).target == t;
    assert(a[i].target == t && a[i].active);
}

/// Activating version `b` while `a` of the same kind is active makes `a`
/// inactive in the same step, and never leaves two active versions of a kind.
pub proof fn lemma_activate_exclusive(s: Seq<InstalledModel>, a: (TargetTy, Seq<char>), b: (TargetTy, Seq<char>))
    requires
        registry_wf(s),
        installed(s, b),
        a != b,
        a.0 == b.0,
    ensures
        !is_active_in(activate_spec(s, b), a),
        is_active_in(activate_spec(s, b), b),
        registry_wf(activate_spec(s, b)),
{
    lemma_activate_wf(s, b);
    let i = choose|i: int| 0 <= i < s.len() && (#[trigger] s[i]).target == b;
    assert(activate_spec(s, b)[i].active);
}

} // verus!
