use monarch_store::aur_build::makepkg_root_guard;
use monarch_store::aur_build::{
    aur_clone_url, build_failure_message, collect_missing_keys, download_progress,
    is_build_artifact, is_build_error_line, pgp_failure_message,
};

#[test]
fn clone_urls() {
    assert_eq!(aur_clone_url("yay"), "https://aur.archlinux.org/yay.git");
}

#[test]
fn progress_lines() {
    assert_eq!(download_progress("45% [####      ] 1.2 MiB"), None);
    assert_eq!(download_progress("45 % downloaded so far"), Some(45));
    assert_eq!(download_progress("  100  1234k  100  1234k    0     0"), Some(100));
    assert_eq!(download_progress("  250  1234k  100  1234k    0     0"), None);
    assert_eq!(download_progress("short 5"), None);
    assert_eq!(download_progress("==> Making package"), None);
}

#[test]
fn missing_keys_are_collected_once() {
    let mut keys = Vec::new();
    collect_missing_keys(&mut keys, "==> ERROR: One or more PGP signatures could not be verified!");
    assert!(keys.is_empty());
    collect_missing_keys(&mut keys, "    foo-1.0.tar.gz ... FAILED (unknown public key 4B7A2C9FDE3D1C0A)");
    assert_eq!(keys, vec!["4B7A2C9FDE3D1C0A"]);
    collect_missing_keys(&mut keys, "gpg: key 4B7A2C9FDE3D1C0A: public key not found in keychain");
    assert_eq!(keys, vec!["4B7A2C9FDE3D1C0A"]);
    collect_missing_keys(&mut keys, "unrelated line with DEADBEEFCAFE");
    assert_eq!(keys.len(), 1);
}

#[test]
fn build_failures() {
    assert!(is_build_error_line("==> ERROR: A failure occurred in build()."));
    assert!(!is_build_error_line("==> Starting build()..."));
    assert_eq!(build_failure_message(&vec![], false), "makepkg build failed. Check logs for details.");
    assert_eq!(build_failure_message(&vec![], true), "Build failed after key import. Check logs for details.");
    let errs = vec!["==> ERROR: one".to_string(), "==> ERROR: two".to_string()];
    assert_eq!(build_failure_message(&errs, false), "==> ERROR: two");
    let unknown = vec!["==> ERROR: An Unknown Error Has Occurred. Exiting...".to_string()];
    assert!(build_failure_message(&unknown, false).starts_with("AUR build failed: makepkg reported an unknown error."));
    assert_eq!(
        pgp_failure_message(&vec!["AAAA1111".to_string(), "BBBB2222".to_string()]),
        "PGP verification failed. Could not import required keys: AAAA1111, BBBB2222. You may need to import them manually."
    );
}

#[test]
fn artifacts() {
    assert!(is_build_artifact("/tmp/x/yay/yay-12.0-1-x86_64.pkg.tar.zst"));
    assert!(!is_build_artifact("/tmp/x/yay/yay-12.0-1-x86_64.pkg.tar.zst.sig"));
    assert!(!is_build_artifact("/tmp/x/yay/yay-12.0.tar.zst"));
    assert!(!is_build_artifact("/tmp/a.pkg.tar.b/.zst"));
}

#[test]
fn makepkg_never_runs_as_root() {
    assert_eq!(makepkg_root_guard("0\n"), Err("Security Violation: Attempted to run makepkg as root. This is forbidden.".to_string()));
    assert_eq!(makepkg_root_guard("1000\n"), Ok(()));
    assert_eq!(makepkg_root_guard(""), Ok(()));
}
