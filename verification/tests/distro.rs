use monarch_store::alpm_progress::AlpmProgressEvent;
use monarch_store::distro_context::{
    capabilities_for, detect_cpu_tier, detect_os_release, discover_active_repos, ChaoticSupport,
    DistroContext, DistroId, RepoManagementMode,
};
use monarch_store::labels::get_friendly_label;

#[test]
fn friendly_labels() {
    assert_eq!(get_friendly_label("core", "arch"), "Arch Official");
    assert_eq!(get_friendly_label("cachyos-v3", "cachyos"), "CachyOS (Optimized)");
    assert_eq!(get_friendly_label("chaotic-aur", "garuda"), "Chaotic-AUR (Pre-built)");
    assert_eq!(get_friendly_label("jupiter-main", "arch"), "SteamOS (Jupiter)");
    assert_eq!(get_friendly_label("aur", "arch"), "AUR (Community)");
    assert_eq!(get_friendly_label("", "arch"), "Other repository");
    assert_eq!(get_friendly_label("my-own", "arch"), "Other repository");
    assert_eq!(get_friendly_label("my-custom-repo", "manjaro"), "Other repository");
    assert_eq!(get_friendly_label("core", "manjaro"), get_friendly_label("core", "arch"));
}

#[test]
fn os_release_detection() {
    let (id, name) = detect_os_release(Some("NAME=\"Arch\"\nID=arch\nID_LIKE=\"arch cachyos\"\nPRETTY_NAME=\"CachyOS Linux\"\n"));
    assert!(matches!(id, DistroId::CachyOS));
    assert_eq!(name, "CachyOS Linux");
    let (id, _) = detect_os_release(Some("ID=Manjaro\n"));
    assert!(matches!(id, DistroId::Manjaro));
    let (id, _) = detect_os_release(Some("ID=artix\nID_LIKE=arch\n"));
    assert!(matches!(id, DistroId::Arch));
    match detect_os_release(Some("ID=void\n")).0 {
        DistroId::Unknown(s) => assert_eq!(s, "void"),
        other => panic!("unexpected {:?}", other),
    }
    let (id, name) = detect_os_release(None);
    match id {
        DistroId::Unknown(s) => assert_eq!(s, "unknown"),
        other => panic!("unexpected {:?}", other),
    }
    assert_eq!(name, "Unknown Linux");
}

#[test]
fn capabilities_per_distribution() {
    let m = capabilities_for(&DistroId::Manjaro);
    assert_eq!(m.chaotic_aur_support, ChaoticSupport::Blocked);
    assert_eq!(m.repo_management, RepoManagementMode::Locked);
    assert_eq!(m.default_search_sort, "source_first");
    assert_eq!(capabilities_for(&DistroId::Garuda).chaotic_aur_support, ChaoticSupport::Native);
    assert_eq!(capabilities_for(&DistroId::CachyOS).icon_key, "rocket");
    assert_eq!(capabilities_for(&DistroId::Unknown("x".to_string())).description, "Unknown Arch-based Distro.");
}

#[test]
fn cpu_tiers_and_repos() {
    assert_eq!(detect_cpu_tier(true, true, true), "v4");
    assert_eq!(detect_cpu_tier(false, true, true), "v3");
    assert_eq!(detect_cpu_tier(false, false, true), "v2");
    assert_eq!(detect_cpu_tier(false, false, false), "v1");
    assert_eq!(discover_active_repos(vec![]), vec!["core", "extra"]);
    assert_eq!(discover_active_repos(vec!["cachyos".to_string()]), vec!["cachyos"]);
}

#[test]
fn context_of_a_host() {
    let ctx = DistroContext::new(Some("ID=endeavouros\nPRETTY_NAME=\"EndeavourOS\"\n"), false, true, true, vec!["core".to_string()]);
    assert_eq!(ctx.id_str(), "endeavouros");
    assert_eq!(ctx.pretty_name, "EndeavourOS");
    assert_eq!(ctx.cpu_tier, "v3");
    assert!(ctx.is_chaotic_compatible());
    assert_eq!(ctx.active_repos, vec!["core"]);
}

#[test]
fn progress_events() {
    let mut e = AlpmProgressEvent {
        event_type: "install_complete".to_string(),
        package: None,
        percent: Some(100),
        downloaded: None,
        total: None,
        message: "done".to_string(),
    };
    assert!(e.is_complete());
    assert!(!e.is_error());
    e.event_type = "progress".to_string();
    e.message = "ERROR: disk full".to_string();
    assert!(!e.is_complete());
    assert!(e.is_error());
}
