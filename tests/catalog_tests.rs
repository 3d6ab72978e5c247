use g_lib::catalog::TargetCache;
use g_lib::error::GError;
use g_lib::target::{Target, TargetTy};

fn ghc(v: &str) -> Target {
    Target { target_ty: TargetTy::GHC, version: v.to_string() }
}

const INDEX: &str = "<html><body><h1>Index of /~ghc</h1><ul>\
<li><a href=\"8.10.2/\">8.10.2</a></li>\
<li><a href=\"latest/\">latest</a></li>\
<li><a href=\"README\">README</a></li>\
</ul></body></html>";

#[test]
fn target_cache_builds() {
    match TargetCache::new().build(Some(INDEX.to_string())) {
        Ok(x) => println!("{:#?}", x),
        Err(e) => println!("{:?}", e),
    }
}

#[test]
fn catalog_from_index_keeps_version_rows() {
    let mut cache = TargetCache::new();
    assert_eq!(cache.build(Some(INDEX.to_string())), Ok(()));
    assert_eq!(cache.len(), 2);
    assert_eq!(
        cache.resolve(&ghc("8.10.2")),
        Some("https://downloads.haskell.org/~ghc/8.10.2".to_string())
    );
    assert_eq!(
        cache.resolve(&ghc("latest")),
        Some("https://downloads.haskell.org/~ghc/latest".to_string())
    );
    assert_eq!(cache.resolve(&ghc("README")), None);
}

#[test]
fn catalog_from_labels_filters_by_pattern() {
    let labels: Vec<String> = ["8.10.2", "latest", "README", "master", "ghc-master-x", "docs", "10"]
        .iter()
        .map(|s| s.to_string())
        .collect();
    let cache = TargetCache::from_labels(&labels).unwrap();
    assert_eq!(cache.len(), 5);
    assert!(cache.resolve(&ghc("8.10.2")).is_some());
    assert!(cache.resolve(&ghc("latest")).is_some());
    assert!(cache.resolve(&ghc("master")).is_some());
    assert!(cache.resolve(&ghc("ghc-master-x")).is_some());
    assert!(cache.resolve(&ghc("10")).is_some());
    assert!(cache.resolve(&ghc("README")).is_none());
    assert!(cache.resolve(&ghc("docs")).is_none());
    let cabal = Target { target_ty: TargetTy::Cabal, version: "8.10.2".to_string() };
    assert!(cache.resolve(&cabal).is_none());
}

#[test]
fn failed_build_leaves_catalog_unchanged() {
    let mut cache = TargetCache::new();
    cache.build(Some(INDEX.to_string())).unwrap();
    assert_eq!(cache.build(None), Err(GError::CatalogUnavailable));
    assert_eq!(cache.len(), 2);
    assert_eq!(
        cache.resolve(&ghc("8.10.2")),
        Some("https://downloads.haskell.org/~ghc/8.10.2".to_string())
    );
}

#[test]
fn fresh_build_replaces_whole_catalog() {
    let mut cache = TargetCache::new();
    cache.build(Some(INDEX.to_string())).unwrap();
    let other = "<a href=\"9.0.1/\">9.0.1</a>".to_string();
    cache.build(Some(other)).unwrap();
    assert_eq!(cache.len(), 1);
    assert!(cache.resolve(&ghc("8.10.2")).is_none());
    assert!(cache.resolve(&ghc("9.0.1")).is_some());
}

#[test]
fn insert_overwrites_location() {
    let mut cache = TargetCache::new();
    cache.insert(ghc("8.10.2"), "a".to_string());
    cache.insert(ghc("8.10.2"), "b".to_string());
    assert_eq!(cache.len(), 1);
    assert_eq!(cache.resolve(&ghc("8.10.2")), Some("b".to_string()));
}

#[test]
fn empty_index_gives_empty_catalog() {
    let mut cache = TargetCache::new();
    cache.insert(ghc("1"), "x".to_string());
    cache.build(Some(String::new())).unwrap();
    assert_eq!(cache.len(), 0);
}

#[test]
fn index_with_too_many_tags_is_refused() {
    let mut cache = TargetCache::new();
    cache.build(Some(INDEX.to_string())).unwrap();
    let deep = "<div>".repeat(50_000);
    assert_eq!(cache.build(Some(deep)), Err(GError::CatalogUnavailable));
    assert_eq!(cache.len(), 2);
    let at_limit = "<".repeat(g_lib::catalog::MAX_INDEX_TAGS);
    assert_eq!(cache.build(Some(at_limit)), Ok(()));
    assert_eq!(cache.len(), 0);
}
