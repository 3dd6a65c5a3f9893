use monarch_store::install::{
    cpu_optimization_flag, is_managed_repo, manjaro_guard, target_repo, transaction_repos,
    InstallMonitor, INSTALL_LOG_CAP,
};
use monarch_store::models::PackageSource;

fn src(kind: &str, id: &str) -> PackageSource {
    PackageSource::new(kind, id, "1", id)
}

#[test]
fn manjaro_refuses_prebuilt_repositories() {
    let err = manjaro_guard(true, &src("repo", "chaotic-aur")).unwrap_err();
    assert!(err.starts_with("Manjaro Stability Guard:"));
    assert!(manjaro_guard(true, &src("repo", "cachyos")).is_err());
    assert!(manjaro_guard(true, &src("aur", "aur")).is_ok());
    assert!(manjaro_guard(false, &src("repo", "chaotic-aur")).is_ok());
}

#[test]
fn cpu_flags_and_repositories() {
    assert_eq!(cpu_optimization_flag(true, true, true), Some("znver4"));
    assert_eq!(cpu_optimization_flag(false, true, true), Some("v4"));
    assert_eq!(cpu_optimization_flag(false, false, true), Some("v3"));
    assert_eq!(cpu_optimization_flag(false, false, false), None);
    let repos = transaction_repos(vec!["extra".to_string(), "chaotic-aur".to_string()]);
    assert_eq!(repos, vec!["extra", "chaotic-aur", "core", "community", "multilib"]);
    assert!(is_managed_repo("cachyos"));
    assert!(!is_managed_repo("extra"));
}

#[test]
fn target_repository_choice() {
    assert_eq!(target_repo(&src("repo", "extra"), Some("core".to_string())).as_deref(), Some("extra"));
    assert_eq!(target_repo(&src("repo", "id_unknown"), Some("core".to_string())).as_deref(), Some("core"));
    assert_eq!(target_repo(&src("repo", ""), None), None);
    assert_eq!(target_repo(&src("aur", "aur"), Some("x".to_string())).as_deref(), Some("x"));
}

#[test]
fn monitor_flags() {
    let mut m = InstallMonitor::new();
    m.observe("error: failed retrieving file 'x.pkg.tar.zst' from mirror : 404");
    assert!(m.saw_download_error);
    assert!(m.needs_system_update());
    m.observe("error: could not open database 'core'");
    assert!(m.saw_corrupt_db);
    assert!(!m.needs_system_update());
    m.observe("Error: unknown variant `AlpmInstall`, expected one of ...");
    assert!(m.saw_unknown_variant);
    let mut f = InstallMonitor::new();
    f.observe_followup("failed retrieving x");
    assert!(!f.saw_download_error);
}

#[test]
fn log_is_capped() {
    let mut m = InstallMonitor::new();
    for i in 0..60 {
        m.observe(&format!("line {}", i));
    }
    assert_eq!(m.log.len(), INSTALL_LOG_CAP);
    assert_eq!(m.log[0], "line 10");
    assert_eq!(m.log[49], "line 59");
}

#[test]
fn retry_and_failure_messages() {
    let mut m = InstallMonitor::new();
    m.observe("error: target not found: foo");
    assert!(m.should_retry_with_sync(false, "repo"));
    assert!(!m.should_retry_with_sync(true, "repo"));
    assert!(!m.should_retry_with_sync(false, "aur"));
    assert_eq!(m.failure_message("foo"), "Package 'foo' could not be installed. Check the log above for details.");

    let mut nf = InstallMonitor::new();
    nf.observe("  foo: not found in any enabled repository  ");
    assert_eq!(
        nf.failure_message("foo"),
        "foo: not found in any enabled repository Try enabling Chaotic-AUR or another repo that provides this package, or install from AUR."
    );

    let mut dep = InstallMonitor::new();
    dep.observe("warning: could not satisfy dependencies");
    dep.observe("Error: Error: unable to satisfy dependency 'libx' required by foo");
    assert!(dep.is_dependency_failure());
    assert!(!dep.should_retry_with_sync(false, "repo"));
    assert_eq!(
        dep.failure_message("foo"),
        "Dependencies could not be satisfied for 'foo': warning: could not satisfy dependencies. Try enabling more repos (e.g. multilib, Chaotic-AUR) or install the missing dependency first."
    );

    let mut corrupt = InstallMonitor::new();
    corrupt.observe("Unrecognized archive format");
    assert!(corrupt.failure_message("foo").starts_with("Sync databases are corrupt"));
}

use monarch_store::install::build_pacman_cmd;

#[test]
fn pacman_command_paths() {
    let args = vec!["-S".to_string(), "--noconfirm".to_string(), "vim".to_string()];
    let (prog, a) = build_pacman_cmd(&args, false, true);
    assert_eq!(prog, "/usr/bin/pkexec");
    assert_eq!(a, vec!["--disable-internal-agent", "/usr/lib/monarch-store/monarch-wrapper", "/usr/bin/pacman", "-S", "--noconfirm", "vim"]);
    let (prog, a) = build_pacman_cmd(&args, false, false);
    assert_eq!(prog, "/usr/bin/pkexec");
    assert_eq!(a, vec!["--disable-internal-agent", "/usr/bin/pacman", "-S", "--noconfirm", "vim"]);
    let (prog, a) = build_pacman_cmd(&args, true, true);
    assert_eq!(prog, "/usr/bin/sudo");
    assert_eq!(a, vec!["-S", "/usr/bin/pacman", "-S", "--noconfirm", "vim"]);
}
