use g_lib::error::GError;
use g_lib::host::os_to_target;

#[test]
fn os_to_target_darwin() {
    assert_eq!(os_to_target("Darwin", "x86_64"), Ok(Some("x86_64-apple.darwin.+tar.xz$".to_string())));
}

#[test]
fn os_to_target_linux() {
    assert_eq!(
        os_to_target("Linux", "x86_64"),
        Ok(Some("(x86_64-deb[89]-linux|[^l]+linux-deb7)[^-]+tar.xz$".to_string()))
    );
}

#[test]
fn os_to_target_unknown_host_matches_all() {
    assert_eq!(os_to_target("", "x86_64"), Ok(None));
}

#[test]
fn os_to_target_unsupported() {
    assert_eq!(os_to_target("Windows_NT", "x86_64"), Err(GError::UnsupportedOS));
    assert_eq!(os_to_target("linux", "x86_64"), Err(GError::UnsupportedOS));
}
