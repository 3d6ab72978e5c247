use g_lib::checksum::{normalize_digest, verify_checksums};
use g_lib::error::GError;
use g_lib::g::G;
use g_lib::registry::{install_path, Registry};
use g_lib::target::{Target, TargetTy};

fn ghc(v: &str) -> Target {
    Target { target_ty: TargetTy::GHC, version: v.to_string() }
}

fn cabal(v: &str) -> Target {
    Target { target_ty: TargetTy::Cabal, version: v.to_string() }
}

fn active_of(r: &Registry, kind: TargetTy) -> Vec<String> {
    r.list(kind).into_iter().filter(|v| v.is_active).map(|v| v.target.version).collect()
}

#[test]
fn checksum_gate_values() {
    assert!(!verify_checksums("abc123", ""));
    assert!(verify_checksums("abc123", "abc123"));
    assert!(!verify_checksums("abc123", "def456"));
    assert!(!verify_checksums("", ""));
    assert!(!verify_checksums("", "abc123"));
}

#[test]
fn normalize_digest_trims_and_lowers() {
    assert_eq!(normalize_digest("  ABC123\n"), "abc123");
    assert_eq!(normalize_digest(""), "");
}

#[test]
fn install_path_layout() {
    assert_eq!(install_path("/opt/g", &ghc("8.10.2")), "/opt/g/ghc/8.10.2");
    assert_eq!(install_path("/opt/g", &cabal("3.4")), "/opt/g/cabal/3.4");
}

#[test]
fn install_then_list_is_inactive() {
    let mut r = Registry::new();
    r.record_install(ghc("8.10.2"), "/p/ghc/8.10.2".to_string());
    let listed = r.list(TargetTy::GHC);
    assert_eq!(listed.len(), 1);
    assert_eq!(listed[0].target, ghc("8.10.2"));
    assert_eq!(listed[0].install_path, "/p/ghc/8.10.2");
    assert!(!listed[0].is_active);
    assert!(r.list(TargetTy::Cabal).is_empty());
}

#[test]
fn activate_twice_leaves_one_active() {
    let mut r = Registry::new();
    r.record_install(ghc("8.10.2"), "/p/ghc/8.10.2".to_string());
    r.record_install(ghc("9.0.1"), "/p/ghc/9.0.1".to_string());
    assert_eq!(r.activate(&ghc("9.0.1")), Ok(()));
    assert_eq!(r.activate(&ghc("9.0.1")), Ok(()));
    assert_eq!(active_of(&r, TargetTy::GHC), vec!["9.0.1".to_string()]);
    assert_eq!(r.active_version(TargetTy::GHC), Some(ghc("9.0.1")));
}

#[test]
fn activating_b_demotes_a() {
    let mut r = Registry::new();
    r.record_install(ghc("a"), "/p/ghc/a".to_string());
    r.record_install(ghc("b"), "/p/ghc/b".to_string());
    r.record_install(cabal("c"), "/p/cabal/c".to_string());
    r.activate(&ghc("a")).unwrap();
    r.activate(&cabal("c")).unwrap();
    r.activate(&ghc("b")).unwrap();
    assert_eq!(active_of(&r, TargetTy::GHC), vec!["b".to_string()]);
    assert_eq!(active_of(&r, TargetTy::Cabal), vec!["c".to_string()]);
}

#[test]
fn activate_unknown_version() {
    let mut r = Registry::new();
    assert_eq!(r.activate(&ghc("1.0")), Err(GError::UnknownVersion));
    assert_eq!(r.active_version(TargetTy::GHC), None);
}

#[test]
fn remove_active_without_force_is_refused() {
    let mut g = G::new(None, None);
    g.registry.record_install(ghc("8.10.2"), "/p/ghc/8.10.2".to_string());
    g.switch(&ghc("8.10.2")).unwrap();
    assert_eq!(g.remove(&ghc("8.10.2"), false), Err(GError::CannotRemoveActive));
    let listed = g.list_installed(TargetTy::GHC);
    assert_eq!(listed.len(), 1);
    assert!(listed[0].is_active);
    assert_eq!(g.remove(&ghc("8.10.2"), true), Ok(()));
    assert!(g.list_installed(TargetTy::GHC).is_empty());
}

#[test]
fn remove_inactive_and_unknown() {
    let mut r = Registry::new();
    r.record_install(ghc("1"), "/p/ghc/1".to_string());
    r.record_install(ghc("2"), "/p/ghc/2".to_string());
    r.activate(&ghc("2")).unwrap();
    assert_eq!(r.remove(&ghc("1"), false), Ok(()));
    assert_eq!(r.remove(&ghc("1"), false), Err(GError::UnknownVersion));
    assert_eq!(active_of(&r, TargetTy::GHC), vec!["2".to_string()]);
}

#[test]
fn reinstall_keeps_active_flag() {
    let mut r = Registry::new();
    r.record_install(ghc("1"), "/old".to_string());
    r.activate(&ghc("1")).unwrap();
    r.record_install(ghc("1"), "/new".to_string());
    let listed = r.list(TargetTy::GHC);
    assert_eq!(listed.len(), 1);
    assert_eq!(listed[0].install_path, "/new");
    assert!(listed[0].is_active);
}

#[test]
fn scan_marks_pointer_target_active() {
    let mut r = Registry::new();
    let names: Vec<String> = ["8.10.2", "current", "9.0.1"].iter().map(|s| s.to_string()).collect();
    r.record_scan("/p", TargetTy::GHC, &names, Some("9.0.1".to_string()));
    let listed = r.list(TargetTy::GHC);
    assert_eq!(listed.len(), 2);
    assert_eq!(listed[0].install_path, "/p/ghc/8.10.2");
    assert!(!listed[0].is_active);
    assert_eq!(listed[1].install_path, "/p/ghc/9.0.1");
    assert!(listed[1].is_active);
    let mut dangling = Registry::new();
    dangling.record_scan("/p", TargetTy::Cabal, &names, Some("7".to_string()));
    assert_eq!(dangling.active_version(TargetTy::Cabal), None);
    assert_eq!(dangling.list(TargetTy::Cabal).len(), 2);
}

#[test]
fn switch_unknown_version_via_g() {
    let mut g = G::new(None, None);
    assert_eq!(g.switch(&cabal("3.4")), Err(GError::UnknownVersion));
}

#[test]
fn adjust_shell_path_prepends_bin() {
    let g = G::new(None, None);
    assert_eq!(g.adjust_shell_path("/opt/g", TargetTy::GHC, "/usr/bin:/bin"), "/opt/g/ghc/current/bin:/usr/bin:/bin");
    assert_eq!(g.adjust_shell_path("/opt/g", TargetTy::Cabal, ""), "/opt/g/cabal/current/bin");
}
