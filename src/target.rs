use vstd::prelude::*;
use crate::text::{lower_of, lemma_trim_padding, is_white, to_lowercase, trim, trim_of};

verus! {

/// The kinds of toolchain that can be installed.
#[derive(PartialEq, Eq, Structural, Clone, Copy, Debug, Hash)]
pub enum TargetTy {
    GHC,
    Cabal,
}

/// One installable unit: a toolchain kind and a version.
#[derive(Debug, Clone, Eq, Hash)]
pub struct Target {
    pub target_ty: TargetTy,
    pub version: String,
}

impl View for Target {
    type V = (TargetTy, Seq<char>);

    open spec fn view(&self) -> (TargetTy, Seq<char>) {
        (self.target_ty, self.version@)
    }
}

impl PartialEq for Target {
    fn eq(&self, o: &Target) -> (r: bool) {
        self.target_ty == o.target_ty && self.version == o.version
    }
}

impl vstd::std_specs::cmp::PartialEqSpecImpl for Target {
    open spec fn obeys_eq_spec() -> bool {
        true
    }

    open spec fn eq_spec(&self, o: &Target) -> bool {
        self@ == o@
    }
}

/// The kind that a canonical (trimmed, lower-case) kind name denotes.
pub open spec fn kind_of_name(n: Seq<char>) -> Option<TargetTy> {
    if n == seq!['g', 'h', 'c'] {
        Some(TargetTy::GHC)
    } else if n == seq!['c', 'a', 'b', 'a', 'l'] {
        Some(TargetTy::Cabal)
    } else {
        None
    }
}

/// The canonical form of a kind name as a user may write it.
pub open spec fn canonical_name(s: Seq<char>) -> Seq<char> {
    lower_of(trim_of(s))
}

/// The target that `Target::new` builds from a kind name and a version.
pub open spec fn target_spec(kind_name: Seq<char>, version: Seq<char>) -> Option<(TargetTy, Seq<char>)> {
    match kind_of_name(canonical_name(kind_name)) {
        Some(k) => Some((k, version)),
        None => None,
    }
}

/// The view of an optional target.
pub open spec fn target_view(t: Option<Target>) -> Option<(TargetTy, Seq<char>)> {
    match t {
        Some(x) => Some(x@),
        None => None,
    }
}

/// The directory name of a kind under the prefix root.
pub open spec fn kind_dir(k: TargetTy) -> Seq<char> {
    match k {
        TargetTy::GHC => seq!['g', 'h', 'c'],
        TargetTy::Cabal => seq!['c', 'a', 'b', 'a', 'l'],
    }
}

/// Whether two strings hold the same characters.
pub fn same_text(a: &str, b: &str) -> (r: bool)
    ensures
        r == (a@ == b@),
{
    let x = a.to_owned();
    let y = b.to_owned();
    x == y
}

/// The kind that an already canonical name denotes: `"ghc"` or `"cabal"`.
pub fn kind_from_canonical(name: &str) -> (r: Option<TargetTy>)
    ensures
        r == kind_of_name(name@),
{
    proof {
        reveal_strlit("ghc");
        reveal_strlit("cabal");
        assert("ghc"@ =~= seq!['g', 'h', 'c']);
        assert("cabal"@ =~= seq!['c', 'a', 'b', 'a', 'l']);
    }
    if same_text(name, "ghc") {
        Some(TargetTy::GHC)
    } else if same_text(name, "cabal") {
        Some(TargetTy::Cabal)
    } else {
        None
    }
}

/// The directory name of a kind under the prefix root.
pub fn kind_dir_name(k: TargetTy) -> (r: &'static str)
    ensures
        r@ == kind_dir(k),
{
    proof {
        reveal_strlit("ghc");
        reveal_strlit("cabal");
        assert("ghc"@ =~= seq!['g', 'h', 'c']);
        assert("cabal"@ =~= seq!['c', 'a', 'b', 'a', 'l']);
    }
    match k {
        TargetTy::GHC => "ghc",
        TargetTy::Cabal => "cabal",
    }
}

/// A copy of a target with the same kind and version.
pub fn copy_target(t: &Target) -> (r: Target)
    ensures
        r@ == t@,
{
    Target { target_ty: t.target_ty, version: t.version.clone() }
}

impl Target {
    /// Builds a target from a kind name, read without regard to case or
    /// surrounding white space, and a version; `None` for an unknown kind.
    pub fn new(target_ty_str: &str, version_str: &str) -> (r: Option<Self>)
        ensures
            target_view(r) == target_spec(target_ty_str@, version_str@),
    {
        let trimmed = trim(target_ty_str);
        let name = to_lowercase(trimmed.as_str());
        match kind_from_canonical(name.as_str()) {
            Some(target_ty) => Some(Target { target_ty, version: version_str.to_owned() }),
            None => None,
        }
    }
}

/// A kind name is read by its canonical form alone: names that agree once
/// trimmed and lower-cased give the same target, white space around a name
/// changes nothing, and a name that is neither `ghc` nor `cabal` gives none.
pub proof fn lemma_kind_name_forms(s1: Seq<char>, s2: Seq<char>, p: Seq<char>, q: Seq<char>, v: Seq<char>)
    requires
        forall|i: int| 0 <= i < p.len() ==> is_white(#[trigger] p[i]),
        forall|i: int| 0 <= i < q.len() ==> is_white(#[trigger] q[i]),
    ensures
        canonical_name(s1) == canonical_name(s2) ==> target_spec(s1, v) == target_spec(s2, v),
        target_spec(p + s1 + q, v) == target_spec(s1, v),
        target_spec(s1, v) is None <==> (canonical_name(s1) != seq!['g', 'h', 'c']
            && canonical_name(s1) != seq!['c', 'a', 'b', 'a', 'l']),
        target_spec(s1, v) is Some ==> target_spec(s1, v).unwrap().1 == v,
{
    lemma_trim_padding(p, s1, q);
}

} // verus!
