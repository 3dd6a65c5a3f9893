use monarch_store::alpm_progress::AlpmProgressEvent;
use monarch_store::helper_client::{
    auth_label, check_command_file, debounce_wait, helper_command_line, is_structured_line,
    progress_from_event, select_helper, HelperCommand, TransactionManifest,
};

#[test]
fn invocations_are_spaced() {
    assert_eq!(debounce_wait(None, 5_000), (None, Some(5_000)));
    assert_eq!(debounce_wait(Some(5_000), 5_300), (Some(500), Some(5_000)));
    assert_eq!(debounce_wait(Some(5_000), 5_800), (None, Some(5_800)));
}

#[test]
fn command_file_is_checked() {
    assert!(check_command_file("{\"a\":1}\n", "{\"a\":1}").is_ok());
    assert_eq!(check_command_file("  \n", "{}").unwrap_err(), "Command file was empty after write");
    assert_eq!(check_command_file("{}", "{\"a\":1}").unwrap_err(), "Command file content mismatch");
}

#[test]
fn helper_binary_choice() {
    let installed = "/usr/lib/monarch-store/monarch-helper";
    assert_eq!(select_helper(installed, true, true, Some("dev".to_string())).as_deref(), Some(installed));
    assert_eq!(select_helper(installed, false, true, Some("dev".to_string())).as_deref(), Some("dev"));
    assert_eq!(select_helper(installed, false, true, None), None);
    assert_eq!(select_helper(installed, false, false, None).as_deref(), Some(installed));
}

#[test]
fn helper_command_lines() {
    let (p, args) = helper_command_line(true, "/h", "/var/tmp/c.json");
    assert_eq!(p, "sudo");
    assert_eq!(args, vec!["-E", "-S", "/h", "/var/tmp/c.json"]);
    let (p, args) = helper_command_line(false, "/h", "/f");
    assert_eq!(p, "pkexec");
    assert_eq!(args, vec!["--disable-internal-agent", "/h", "/f"]);
    assert_eq!(auth_label(true), "sudo (password on stdin)");
    assert_eq!(auth_label(false), "pkexec (Polkit)");
}

#[test]
fn progress_from_structured_events() {
    let e = AlpmProgressEvent {
        event_type: "download".to_string(),
        package: Some("firefox".to_string()),
        percent: None,
        downloaded: None,
        total: None,
        message: "Downloading firefox".to_string(),
    };
    let m = progress_from_event(&e);
    assert_eq!(m.progress, 0);
    assert_eq!(m.message, "Downloading firefox");
    assert!(is_structured_line("{\"progress\":5}"));
    assert!(!is_structured_line(" {"));
    assert!(!is_structured_line(""));
}

#[test]
fn manifests_and_commands() {
    let m = TransactionManifest::system_upgrade(Some(5));
    assert!(m.update_system && m.refresh_db);
    assert_eq!(m.parallel_downloads, Some(5));
    let e = TransactionManifest::empty();
    assert!(!e.update_system && e.install_targets.is_empty());
    let cmd = HelperCommand::AlpmInstall {
        packages: vec!["firefox".to_string()],
        sync_first: true,
        enabled_repos: vec!["core".to_string(), "chaotic-aur".to_string()],
        cpu_optimization: Some("v3".to_string()),
        target_repo: None,
    };
    match cmd {
        HelperCommand::AlpmInstall { packages, .. } => assert_eq!(packages, vec!["firefox".to_string()]),
        _ => panic!("expected an install command"),
    }
}
