use g_lib::g::G;
use g_lib::target::{kind_from_canonical, Target, TargetTy};

#[test]
fn it_works() {
    assert_eq!(2 + 2, 4);
}

#[test]
fn target_ctor_succeeds_with_ghc_strs() {
    let names = vec![" ghc", "ghc ", "ghc", "GHC"];
    names.iter().for_each(|name| {
        let target_ty = TargetTy::GHC;
        let version = "8.10.2";
        let t = Target::new(name, version);
        assert_eq!(
            t,
            Some(Target {
                target_ty,
                version: version.to_string()
            })
        )
    });
}

#[test]
fn target_ctor_succeeds_with_cabal_strs() {
    let names = vec![" cabal", "cabal ", "cabal", "CABAL"];
    names.iter().for_each(|name| {
        let target_ty = TargetTy::Cabal;
        let version = "8.10.2";
        let t = Target::new(name, version);
        assert_eq!(
            t,
            Some(Target {
                target_ty,
                version: version.to_string()
            })
        )
    });
}

#[test]
fn g_instantiates() {
    let expected_target = Target::new("ghc", "8.10.2").unwrap();
    let g = G::new(None, None).target(expected_target.clone());
    assert_eq!(g.target, Some(expected_target));
}

#[test]
fn target_ctor_rejects_unknown_kinds() {
    for name in ["", "   ", "stack", "gh c", "ghcx", "cabal-install"] {
        assert_eq!(Target::new(name, "1.0"), None);
    }
}

#[test]
fn target_ctor_mixed_case_and_tabs() {
    let t = Target::new("\t GhC \n", "9.2.1").unwrap();
    assert_eq!(t.target_ty, TargetTy::GHC);
    assert_eq!(t.version, "9.2.1");
    let c = Target::new("\u{3000}CaBaL", "3.4").unwrap();
    assert_eq!(c.target_ty, TargetTy::Cabal);
}

#[test]
fn kind_from_canonical_is_exact() {
    assert_eq!(kind_from_canonical("ghc"), Some(TargetTy::GHC));
    assert_eq!(kind_from_canonical("cabal"), Some(TargetTy::Cabal));
    assert_eq!(kind_from_canonical("GHC"), None);
    assert_eq!(kind_from_canonical(" ghc"), None);
}

#[test]
fn g_new_trims_probe_output() {
    let g = G::new(Some("x86_64\n".to_string()), Some("  Linux\n".to_string()));
    assert_eq!(g.metadata.machine, "x86_64");
    assert_eq!(g.metadata.system, "Linux");
    let unknown = G::new(None, None);
    assert_eq!(unknown.metadata.machine, "");
    assert_eq!(unknown.metadata.system, "");
    assert!(unknown.target.is_none());
}
