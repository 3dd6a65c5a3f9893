use monarch_store::update::empty_selection_reply;
use monarch_store::update::{
    final_message, get_system_update_command, is_sysupgrade_failure, progress_phase,
    source_status_of, UpdateEvent, UpdateRun, UpdateRunSummary, UpdateStage,
};

#[test]
fn update_command_is_full_upgrade() {
    let c = get_system_update_command();
    assert_eq!(c.command, "sudo pacman -Syu");
    assert_eq!(c.description, "Full system upgrade (sync databases + upgrade all packages)");
}

#[test]
fn helper_failures_are_detected() {
    assert!(is_sysupgrade_failure("Error: could not lock database"));
    assert!(is_sysupgrade_failure("Transaction preparation failed: conflicts"));
    assert!(!is_sysupgrade_failure("Upgrading firefox"));
    assert!(!is_sysupgrade_failure(" Error: leading space"));
}

#[test]
fn progress_phases() {
    assert_eq!(progress_phase("Synchronizing package databases"), "refresh");
    assert_eq!(progress_phase("Loading DATABASE"), "refresh");
    assert_eq!(progress_phase("Upgrading firefox"), "upgrade");
}

#[test]
fn source_statuses() {
    assert_eq!(source_status_of(3, 0), "success");
    assert_eq!(source_status_of(3, 1), "partial");
    assert_eq!(source_status_of(3, 3), "failed");
    assert_eq!(source_status_of(0, 0), "success");
}

#[test]
fn offline_run_fails() {
    let mut s = UpdateRunSummary::new();
    assert_eq!(s.overall(), "success");
    s.record_repo_failure("OFFLINE: Cannot perform update without internet connectivity.");
    assert_eq!(s.repo, "failed");
    assert_eq!(s.failed_packages.len(), 1);
    assert_eq!(s.failed_packages[0].name, "system");
    assert_eq!(s.failed_packages[0].source, "repo");
    assert_eq!(s.overall(), "failed");
    assert_eq!(final_message(s.overall()), "Update failed.");
}

#[test]
fn aur_failures_make_a_partial_run() {
    let mut s = UpdateRunSummary::new();
    s.record_repo_success();
    assert_eq!(s.overall(), "success");
    assert_eq!(final_message("success"), "All updates completed successfully.");
    s.record_aur_build_failure("yay", "makepkg failed");
    assert_eq!(s.warnings, vec!["AUR build failed: yay (makepkg failed)".to_string()]);
    assert_eq!(s.failed_packages[0].reason, "makepkg failed");
    assert_eq!(s.overall(), "partial");
    assert_eq!(final_message("partial"), "Updates completed with some issues. Review failed items.");
}

#[test]
fn check_and_install_failures_are_recorded() {
    let mut s = UpdateRunSummary::new();
    s.record_aur_check_failure("timeout");
    assert_eq!(s.aur, "failed");
    assert_eq!(s.warnings[0], "AUR update check failed: timeout");
    assert_eq!(s.failed_packages[0].name, "aur-check");
    s.record_aur_install_failure(&vec!["a".to_string(), "b".to_string()], "denied");
    assert_eq!(s.failed_packages.len(), 3);
    assert_eq!(s.failed_packages[2].name, "b");
    assert_eq!(s.failed_packages[2].reason, "Install failed: denied");
    assert_eq!(s.warnings[1], "AUR install phase failed: denied");
    s.record_flatpak_failure("org.gimp.GIMP", "no space");
    assert_eq!(s.warnings[2], "Flatpak update failed: org.gimp.GIMP (no space)");
    s.record_flatpak_check_failure("no remote");
    assert_eq!(s.flatpak, "failed");
    assert_eq!(s.failed_packages.last().unwrap().name, "flatpak-check");
    assert_eq!(s.warnings[3], "Flatpak check failed: no remote");
}

use monarch_store::models::PackageSource;
use monarch_store::update::{requires_system_upgrade, update_manifest, UpdateItem};

fn item(name: &str, kind: &str) -> UpdateItem {
    UpdateItem {
        name: name.to_string(),
        current_version: "1".to_string(),
        new_version: "2".to_string(),
        source: PackageSource::new(kind, kind, "2", kind),
        size: None,
        icon: None,
        display_name: None,
    }
}

#[test]
fn manifests_group_by_source() {
    let targets = vec![item("linux", "repo"), item("yay", "aur"), item("org.gimp.GIMP", "flatpak"), item("mesa", "repo"), item("x", "local")];
    let m = update_manifest(&targets);
    assert_eq!(m.total, 5);
    assert_eq!(m.repo_packages, vec!["linux", "mesa"]);
    assert_eq!(m.repo_count, 2);
    assert_eq!(m.aur_packages, vec!["yay"]);
    assert_eq!(m.flatpak_count, 1);
    assert!(requires_system_upgrade(&targets));
    assert!(!requires_system_upgrade(&vec![item("yay", "aur")]));
}

#[test]
fn failed_system_upgrade_stops_the_run() {
    let mut s = UpdateRunSummary::new();
    let stop = s.finish_system_upgrade(true);
    assert_eq!(stop.as_deref(), Some("System update failed. Aborting AUR/Flatpak updates to prevent partial upgrade state."));
    assert_eq!(s.repo, "failed");
    assert_eq!(s.failed_packages.len(), 1);
    assert_eq!(s.failed_packages[0].name, "system");
    assert_eq!(s.overall(), "failed");
    let mut ok = UpdateRunSummary::new();
    assert_eq!(ok.finish_system_upgrade(false), None);
    assert_eq!(ok.repo, "success");
    assert!(ok.failed_packages.is_empty());
}

#[test]
fn empty_selection_is_answered() {
    assert_eq!(empty_selection_reply(&Vec::new()).as_deref(), Some("No updates selected"));
    assert_eq!(empty_selection_reply(&vec![item("vim", "repo")]), None);
}

#[test]
fn update_run_visits_included_sources_after_upgrade() {
    let mut run = UpdateRun::new(true, true);
    assert_eq!(run.stage, UpdateStage::Connectivity);
    assert_eq!(run.advance(UpdateEvent::Connectivity(true)), UpdateStage::SystemUpgrade);
    assert_eq!(run.advance(UpdateEvent::AurDone), UpdateStage::SystemUpgrade);
    assert_eq!(run.advance(UpdateEvent::SystemUpgraded(false)), UpdateStage::Aur);
    assert_eq!(run.summary.repo, "success");
    assert_eq!(run.advance(UpdateEvent::AurDone), UpdateStage::Flatpak);
    assert_eq!(run.advance(UpdateEvent::FlatpakDone), UpdateStage::Done);
    assert_eq!(run.closing_message(), "All updates completed successfully.");
}

#[test]
fn update_run_skips_excluded_sources() {
    let mut run = UpdateRun::new(false, true);
    run.advance(UpdateEvent::Connectivity(true));
    assert_eq!(run.advance(UpdateEvent::SystemUpgraded(false)), UpdateStage::Flatpak);
    let mut run = UpdateRun::new(false, false);
    run.advance(UpdateEvent::Connectivity(true));
    assert_eq!(run.advance(UpdateEvent::SystemUpgraded(false)), UpdateStage::Done);
    assert_eq!(run.summary.aur, "skipped");
    assert_eq!(run.summary.flatpak, "skipped");
}

#[test]
fn update_run_is_cut_short() {
    let mut run = UpdateRun::new(true, true);
    assert_eq!(run.advance(UpdateEvent::Connectivity(false)), UpdateStage::Done);
    assert_eq!(run.summary.repo, "failed");
    assert_eq!(run.summary.failed_packages[0].reason, "OFFLINE: Cannot perform update without internet connectivity.");
    assert_eq!(run.summary.overall(), "failed");
    assert_eq!(run.closing_message(), "OFFLINE: Cannot perform update without internet connectivity.");

    let mut run = UpdateRun::new(true, true);
    run.advance(UpdateEvent::Connectivity(true));
    assert_eq!(run.advance(UpdateEvent::SystemUpgraded(true)), UpdateStage::Done);
    assert_eq!(
        run.closing_message(),
        "System update failed. Aborting AUR/Flatpak updates to prevent partial upgrade state."
    );

    let mut run = UpdateRun::new(true, true);
    run.advance(UpdateEvent::Connectivity(true));
    assert_eq!(run.advance(UpdateEvent::HelperUnavailable("no helper".to_string())), UpdateStage::Done);
    assert_eq!(run.summary.failed_packages[0].name, "system");
    assert_eq!(run.closing_message(), "no helper");
}
