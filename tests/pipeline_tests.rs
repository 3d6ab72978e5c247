use g_lib::error::GError;
use g_lib::g::G;
use g_lib::pipeline::{Action, Event, Installation, Stage, MAX_DOWNLOAD_ATTEMPTS};
use g_lib::registry::Registry;
use g_lib::target::{Target, TargetTy};

fn ghc(v: &str) -> Target {
    Target { target_ty: TargetTy::GHC, version: v.to_string() }
}

fn started() -> Installation {
    Installation::new(ghc("8.10.2"), "https://x/8.10.2".to_string(), "/p")
}

fn digests(l: &str, r: &str) -> Event {
    Event::Digests { local: l.to_string(), reference: r.to_string() }
}

#[test]
fn full_installation_records_version() {
    let mut inst = started();
    assert_eq!(inst.prefix(), "/p/ghc/8.10.2");
    assert_eq!(inst.target(), &ghc("8.10.2"));
    assert_eq!(inst.next_action(), Action::Download { location: "https://x/8.10.2".to_string() });
    inst.advance(Event::DownloadSucceeded);
    assert_eq!(inst.next_action(), Action::ComputeChecksum);
    inst.advance(digests("abc123", "abc123"));
    assert_eq!(inst.stage(), Stage::Verified);
    assert_eq!(inst.next_action(), Action::Unpack);
    inst.advance(Event::Unpacked { top_level: vec!["ghc-8.10.2".to_string()] });
    assert_eq!(
        inst.next_action(),
        Action::Build { source_root: "ghc-8.10.2".to_string(), prefix: "/p/ghc/8.10.2".to_string() }
    );
    inst.advance(Event::BuildSucceeded);
    assert_eq!(inst.next_action(), Action::MoveIntoPlace { prefix: "/p/ghc/8.10.2".to_string() });
    inst.advance(Event::MovedIntoPlace);
    assert_eq!(inst.stage(), Stage::Installed);
    assert_eq!(inst.next_action(), Action::Cleanup);
    let mut reg = Registry::new();
    assert_eq!(inst.register(&mut reg), Ok(()));
    let listed = reg.list(TargetTy::GHC);
    assert_eq!(listed.len(), 1);
    assert!(!listed[0].is_active);
}

#[test]
fn checksum_mismatch_stops_pipeline() {
    let mut inst = started();
    inst.advance(Event::DownloadSucceeded);
    inst.advance(digests("abc123", "def456"));
    assert_eq!(inst.stage(), Stage::Failed(GError::ChecksumMismatch));
    inst.advance(Event::Unpacked { top_level: vec!["x".to_string()] });
    assert_eq!(inst.stage(), Stage::Failed(GError::ChecksumMismatch));
    assert_eq!(inst.next_action(), Action::Cleanup);
    let mut reg = Registry::new();
    assert_eq!(inst.register(&mut reg), Err(GError::ChecksumMismatch));
    assert!(reg.list(TargetTy::GHC).is_empty());
}

#[test]
fn empty_reference_digest_fails() {
    let mut inst = started();
    inst.advance(Event::DownloadSucceeded);
    inst.advance(digests("abc123", ""));
    assert_eq!(inst.stage(), Stage::Failed(GError::ChecksumMismatch));
}

#[test]
fn download_retries_are_bounded() {
    let mut inst = started();
    for _ in 0..MAX_DOWNLOAD_ATTEMPTS - 1 {
        inst.advance(Event::DownloadFailed);
        assert_eq!(inst.stage(), Stage::Resolved);
    }
    inst.advance(Event::DownloadFailed);
    assert_eq!(inst.stage(), Stage::Failed(GError::DownloadFailed));
    assert_eq!(inst.attempts(), 3);
}

#[test]
fn ambiguous_archive_layout() {
    for entries in [vec![], vec!["a".to_string(), "b".to_string()]] {
        let mut inst = started();
        inst.advance(Event::DownloadSucceeded);
        inst.advance(digests("abc123", "abc123"));
        inst.advance(Event::Unpacked { top_level: entries });
        assert_eq!(inst.stage(), Stage::Failed(GError::AmbiguousArchiveLayout));
    }
}

#[test]
fn build_failure() {
    let mut inst = started();
    inst.advance(Event::DownloadSucceeded);
    inst.advance(digests("abc123", "abc123"));
    inst.advance(Event::Unpacked { top_level: vec!["src".to_string()] });
    inst.advance(Event::BuildFailed);
    assert_eq!(inst.stage(), Stage::Failed(GError::BuildFailed));
}

#[test]
fn download_and_install_needs_prefix_and_target() {
    let g = G::new(None, None);
    assert_eq!(g.download_and_install(None, None).err(), Some(GError::ConfigurationError));
    assert_eq!(g.download_and_install(Some(String::new()), None).err(), Some(GError::ConfigurationError));
    assert_eq!(g.download_and_install(Some("/p".to_string()), None).err(), Some(GError::UnresolvedTarget));
    let g = g.target(ghc("8.10.2"));
    assert_eq!(g.download_and_install(Some("/p".to_string()), None).err(), Some(GError::UnresolvedTarget));
    let inst = g.download_and_install(Some("/p".to_string()), Some("file.tar.xz".to_string())).unwrap();
    assert_eq!(inst.location(), "file.tar.xz");
    assert_eq!(inst.prefix(), "/p/ghc/8.10.2");
    assert_eq!(inst.stage(), Stage::Resolved);
}

#[test]
fn download_and_install_uses_catalog() {
    let mut g = G::new(None, None).target(ghc("8.10.2"));
    g.target_cache.build(Some("<a href=\"8.10.2/\">8.10.2</a>".to_string())).unwrap();
    let inst = g.download_and_install(Some("/p".to_string()), None).unwrap();
    assert_eq!(inst.location(), "https://downloads.haskell.org/~ghc/8.10.2");
}

#[test]
fn install_then_switch_lists_active() {
    let mut g = G::new(None, None).target(ghc("9.2.1"));
    g.registry.record_install(ghc("8.10.2"), "/p/ghc/8.10.2".to_string());
    g.switch(&ghc("8.10.2")).unwrap();
    let mut inst = g.download_and_install(Some("/p".to_string()), Some("a.tar.xz".to_string())).unwrap();
    inst.advance(Event::DownloadSucceeded);
    inst.advance(digests("abc123", "abc123"));
    inst.advance(Event::Unpacked { top_level: vec!["src".to_string()] });
    inst.advance(Event::BuildSucceeded);
    inst.advance(Event::MovedIntoPlace);
    inst.register(&mut g.registry).unwrap();
    g.switch(&ghc("9.2.1")).unwrap();
    let listed = g.list_installed(TargetTy::GHC);
    let active: Vec<&str> = listed.iter().filter(|v| v.is_active).map(|v| v.target.version.as_str()).collect();
    assert_eq!(active, vec!["9.2.1"]);
    assert_eq!(listed.len(), 2);
}
