use monarch_store::package::{fill_from_remote_metadata, remote_metadata_needs, DetailsMedia};
use monarch_store::models::{Package, PackageSource, PackageVariant};
use monarch_store::package::{
    aur_pending_updates, build_security_summary, canonicalize_to_known_variant_source,
    derive_developer_name_for_details, derive_donation_url_for_details,
    maintainer_fallback_for_source, parse_update_available, reorder_variants_for_selected_source,
    repo_family_key, resolve_authoritative_selected_source, same_source_identity_or_family,
    PackageInstallStatus,
};

fn src(kind: &str, id: &str) -> PackageSource {
    PackageSource::new(kind, id, "1.0", id)
}

fn variant(kind: &str, id: &str) -> PackageVariant {
    PackageVariant {
        source: src(kind, id),
        version: "1.0".to_string(),
        repo_name: None,
        pkg_name: Some("pkg".to_string()),
        download_size: None,
        installed_size: None,
        maintainer: None,
        license: None,
        description: None,
        screenshots: None,
        security: None,
    }
}

fn pkg_with(maintainer: Option<&str>, url: Option<&str>) -> Package {
    let mut p = Package::basic("pkg".to_string(), String::new(), "1".to_string(), src("repo", "extra"));
    p.maintainer = maintainer.map(|s| s.to_string());
    p.url = url.map(|s| s.to_string());
    p
}

fn status(installed: bool, source: Option<PackageSource>) -> PackageInstallStatus {
    PackageInstallStatus { installed, version: None, repo: None, source, actual_package_name: None }
}

#[test]
fn maintainer_fallbacks() {
    assert_eq!(maintainer_fallback_for_source(&src("repo", "cachyos-v3")).as_deref(), Some("CachyOS Packaging Team"));
    assert_eq!(maintainer_fallback_for_source(&src("repo", "Chaotic-AUR")).as_deref(), Some("Chaotic-AUR Team"));
    assert_eq!(maintainer_fallback_for_source(&src("repo", "garuda")).as_deref(), Some("Distribution Packaging Team"));
    assert_eq!(maintainer_fallback_for_source(&src("repo", "extra")).as_deref(), Some("Arch Linux Packager"));
    assert_eq!(maintainer_fallback_for_source(&src("aur", "aur")), None);
}

#[test]
fn developer_from_maintainer_or_url() {
    assert_eq!(derive_developer_name_for_details(&pkg_with(Some("  Jane Doe "), None)).as_deref(), Some("Jane Doe"));
    assert_eq!(
        derive_developer_name_for_details(&pkg_with(None, Some("https://www.mozilla.org/firefox/"))).as_deref(),
        Some("Mozilla")
    );
    assert_eq!(derive_developer_name_for_details(&pkg_with(Some("  "), Some("gimp.org"))).as_deref(), Some("Gimp"));
    assert_eq!(derive_developer_name_for_details(&pkg_with(None, Some("https://.x"))), None);
    assert_eq!(derive_developer_name_for_details(&pkg_with(None, None)), None);
}

#[test]
fn donation_url_is_trimmed_url() {
    assert_eq!(derive_donation_url_for_details(&pkg_with(None, Some(" https://a.org "))).as_deref(), Some("https://a.org"));
    assert_eq!(derive_donation_url_for_details(&pkg_with(None, Some("   "))), None);
}

#[test]
fn security_summaries() {
    let flatpak = build_security_summary(Some(&src("flatpak", "flathub")), true);
    assert_eq!(flatpak.trust_tier, "sandboxed");
    assert_eq!(flatpak.system_access, "scoped");
    assert_eq!(flatpak.user_action_note, "Review the package source before installing or updating.");
    let aur = build_security_summary(Some(&src("aur", "aur")), false);
    assert_eq!(aur.trust_tier, "community_build");
    assert!(aur.user_action_note.starts_with("This source did not publish a maintainer"));
    assert_eq!(build_security_summary(Some(&src("repo", "chaotic-aur")), true).trust_tier, "third_party_repo");
    assert_eq!(build_security_summary(Some(&src("repo", "manjaro-core")), true).trust_tier, "distro_native");
    let none = build_security_summary(None, true);
    assert_eq!(none.trust_tier, "official");
    assert_eq!(none.verification_note, "Provided by the system package repositories.");
}

#[test]
fn repo_families() {
    assert_eq!(repo_family_key("cachyos-extra-v3"), "cachyos");
    assert_eq!(repo_family_key("Core"), "arch-official");
    assert_eq!(repo_family_key("chaotic-aur"), "chaotic-aur");
    assert_eq!(repo_family_key("EndeavourOS"), "endeavouros");
    assert_eq!(repo_family_key("MyRepo"), "myrepo");
}

#[test]
fn same_family_sources() {
    assert!(same_source_identity_or_family(&src("repo", "core"), &src("repo", "extra")));
    assert!(same_source_identity_or_family(&src("repo", "cachyos-v3"), &src("repo", "cachyos-v4")));
    assert!(!same_source_identity_or_family(&src("repo", "core"), &src("aur", "core")));
    assert!(same_source_identity_or_family(&src("aur", "aur"), &src("aur", "aur")));
    assert!(!same_source_identity_or_family(&src("flatpak", "flathub"), &src("flatpak", "flathub-beta")));
}

#[test]
fn canonical_source_is_first_variant_of_family() {
    let variants = vec![variant("aur", "aur"), variant("repo", "extra"), variant("repo", "core")];
    let c = canonicalize_to_known_variant_source(Some(src("repo", "core")), &variants).unwrap();
    assert_eq!(c.id, "extra");
    let kept = canonicalize_to_known_variant_source(Some(src("flatpak", "flathub")), &variants).unwrap();
    assert_eq!(kept.id, "flathub");
    assert!(canonicalize_to_known_variant_source(None, &variants).is_none());
}

#[test]
fn reorder_is_a_stable_partition() {
    let mut v = vec![
        variant("aur", "aur"),
        variant("flatpak", "flathub"),
        variant("repo", "extra"),
        variant("repo", "chaotic-aur"),
        variant("repo", "core"),
    ];
    let sel = src("repo", "core");
    let pref = src("flatpak", "flathub");
    reorder_variants_for_selected_source(&mut v, Some(&sel), Some(&pref));
    let ids: Vec<&str> = v.iter().map(|x| x.source.id.as_str()).collect();
    assert_eq!(ids, vec!["extra", "core", "flathub", "aur", "chaotic-aur"]);
}

#[test]
fn installed_variant_is_selected() {
    let pkg = pkg_with(None, None);
    let mut variants = vec![variant("flatpak", "flathub"), variant("repo", "extra"), variant("aur", "aur")];
    let installed = vec![status(true, None), status(true, Some(src("aur", "aur")))];
    let sel = resolve_authoritative_selected_source(Some(&pkg), &status(true, None), &installed, &mut variants).unwrap();
    assert_eq!(sel.source_type, "aur");
    let ids: Vec<&str> = variants.iter().map(|x| x.source.id.as_str()).collect();
    assert_eq!(ids, vec!["aur", "extra", "flathub"]);
}

#[test]
fn not_installed_selects_package_default_or_first() {
    let pkg = pkg_with(None, None);
    let mut variants = vec![variant("flatpak", "flathub"), variant("repo", "core")];
    let sel = resolve_authoritative_selected_source(Some(&pkg), &status(false, None), &vec![], &mut variants).unwrap();
    assert_eq!(sel.id, "core");
    assert_eq!(variants[0].source.id, "core");
    let mut only = vec![variant("flatpak", "flathub")];
    let first = resolve_authoritative_selected_source(None, &status(false, None), &vec![], &mut only).unwrap();
    assert_eq!(first.id, "flathub");
    let mut empty: Vec<PackageVariant> = vec![];
    assert!(resolve_authoritative_selected_source(None, &status(false, None), &vec![], &mut empty).is_none());
}

#[test]
fn update_messages() {
    let u = parse_update_available("Update available: firefox 120.0-1 -> 121.0-1").unwrap();
    assert_eq!(u.name, "firefox");
    assert_eq!(u.old_version, "120.0-1");
    assert_eq!(u.new_version, "121.0-1");
    assert_eq!(u.repo, "official");
    assert!(parse_update_available("Update available: firefox 1").is_none());
    assert!(parse_update_available("Checking firefox 120 -> 121 x y").is_none());
}

#[test]
fn aur_updates_need_a_different_version() {
    let installed = vec![
        ("yay".to_string(), "12.0".to_string()),
        ("paru".to_string(), "2.0".to_string()),
        ("yay".to_string(), "12.1".to_string()),
    ];
    let info = vec![
        ("paru".to_string(), "2.0".to_string()),
        ("yay".to_string(), "12.2".to_string()),
        ("other".to_string(), "1".to_string()),
    ];
    let ups = aur_pending_updates(&installed, &info);
    assert_eq!(ups.len(), 1);
    assert_eq!(ups[0].name, "yay");
    assert_eq!(ups[0].old_version, "12.1");
    assert_eq!(ups[0].new_version, "12.2");
    assert_eq!(ups[0].repo, "aur");
}

use monarch_store::package::{
    details_actions, details_cache_keys, details_search_target, merge_variant_sources,
    primary_index, sort_variant_sources,
};

#[test]
fn details_cache_keys_for_app_ids() {
    let (key, aliases) = details_cache_keys("Org.Mozilla.Firefox");
    assert_eq!(key, "org.mozilla.firefox");
    assert_eq!(aliases, vec!["firefox"]);
    let (_, padded) = details_cache_keys(" Org.Mozilla.Firefox ");
    assert!(padded.is_empty());
    let (key, aliases) = details_cache_keys("com.example.Tool");
    assert_eq!(key, "com.example.tool");
    assert_eq!(aliases, vec!["tool"]);
    let (_, none) = details_cache_keys("firefox");
    assert!(none.is_empty());
    let (_, spaced) = details_cache_keys("a.b c");
    assert!(spaced.is_empty());
}

#[test]
fn details_lookup_targets() {
    assert_eq!(details_search_target("org.mozilla.firefox"), ("firefox".to_string(), Some("org.mozilla.firefox".to_string())));
    assert_eq!(details_search_target("com.example.Tool"), ("tool".to_string(), Some("com.example.Tool".to_string())));
    assert_eq!(details_search_target("vlc"), ("vlc".to_string(), None));
}

#[test]
fn primary_package_of_details() {
    let mut a = pkg_with(None, None);
    a.name = "a".to_string();
    let mut b = pkg_with(None, None);
    b.name = "b".to_string();
    b.app_id = Some("org.b.B".to_string());
    let ps = vec![a, b];
    assert_eq!(primary_index(&ps, "org.b.B"), 1);
    assert_eq!(primary_index(&ps, "a"), 0);
    assert_eq!(primary_index(&ps, "zzz"), 0);
}

#[test]
fn sources_merge_by_slot_and_keep_newer() {
    let mut old_extra = PackageSource::new("repo", "extra", "1.0", "Arch");
    old_extra.package_name = None;
    let base = vec![old_extra, PackageSource::new("aur", "aur", "0.9", "AUR")];
    let others = vec![
        PackageSource::new("repo", "extra", "2.0", "Arch"),
        PackageSource::new("aur", "aur", "0.5", "AUR"),
        PackageSource::new_with_name("flatpak", "flathub", "3", "Flatpak", "org.x.X"),
    ];
    let merged = merge_variant_sources(base, others);
    assert_eq!(merged.len(), 3);
    assert_eq!(merged[0].version, "2.0");
    assert_eq!(merged[1].version, "0.9");
    assert_eq!(merged[2].id, "flathub");
}

#[test]
fn sources_sorted_by_rank_then_id() {
    let ss = vec![
        PackageSource::new("aur", "aur", "1", "AUR"),
        PackageSource::new("flatpak", "flathub", "1", "Flatpak"),
        PackageSource::new("repo", "extra", "1", "Arch"),
        PackageSource::new("repo", "chaotic-aur", "1", "Chaotic"),
        PackageSource::new("repo", "cachyos-v3", "1", "CachyOS"),
        PackageSource::new("repo", "core", "1", "Arch"),
        PackageSource::new("repo", "myrepo", "1", "Mine"),
    ];
    let sorted = sort_variant_sources(&ss);
    let ids: Vec<&str> = sorted.iter().map(|s| s.id.as_str()).collect();
    assert_eq!(ids, vec!["cachyos-v3", "core", "extra", "myrepo", "chaotic-aur", "flathub", "aur"]);
}

#[test]
fn details_page_actions() {
    let variants = vec![variant("repo", "extra"), variant("flatpak", "flathub")];
    let a = details_actions(true, Some("Arch Official"), Some("extra"), &variants);
    assert_eq!(a.primary_action, "launch");
    assert_eq!(a.primary_action_label, "Launch");
    assert_eq!(a.source_switch_policy, "informational_only");
    assert_eq!(a.installed_source_label.as_deref(), Some("Arch Official"));
    assert_eq!(
        a.source_switch_notice.as_deref(),
        Some("Installed from Arch Official. To install from another source, uninstall the current app first.")
    );
    assert_eq!(a.source_summary.as_deref(), Some("2 sources available"));
    let b = details_actions(false, Some("x"), None, &vec![variant("aur", "aur")]);
    assert_eq!(b.primary_action, "install");
    assert_eq!(b.installed_source_label, None);
    assert_eq!(b.source_switch_notice, None);
    assert_eq!(b.source_summary.as_deref(), Some("Primary source: aur"));
    let many: Vec<PackageVariant> = (0..12).map(|_| variant("aur", "aur")).collect();
    assert_eq!(details_actions(false, None, None, &many).source_summary.as_deref(), Some("12 sources available"));
    assert_eq!(details_actions(true, None, Some("core"), &vec![]).installed_source_label.as_deref(), Some("core"));
    assert_eq!(details_actions(false, None, None, &vec![]).source_summary, None);
}

fn remote_meta() -> monarch_store::flathub::AppMetadata {
    monarch_store::flathub::AppMetadata {
        name: "Obsidian".to_string(),
        pkg_name: Some("obsidian".to_string()),
        icon_url: Some("https://dl.flathub.org/icon.png".to_string()),
        app_id: "md.obsidian.Obsidian".to_string(),
        summary: None,
        screenshots: vec!["https://s/1.png".to_string()],
        version: None,
        maintainer: None,
        license: None,
        last_updated: None,
        description: Some("Notes".to_string()),
        is_local: false,
        installed: None,
    }
}

#[test]
fn remote_metadata_fills_only_what_is_lacking() {
    let mut d = DetailsMedia {
        long_description: Some("  ".to_string()),
        screenshots: Some(vec!["local.png".to_string()]),
        icon: Some("/usr/share/icons/obsidian.png".to_string()),
        app_id: Some("custom.id".to_string()),
    };
    assert_eq!(remote_metadata_needs(&d), (true, false, true, false));
    assert!(fill_from_remote_metadata(&mut d, remote_meta()));
    assert_eq!(d.long_description.as_deref(), Some("Notes"));
    assert_eq!(d.screenshots, Some(vec!["local.png".to_string()]));
    assert_eq!(d.icon.as_deref(), Some("https://dl.flathub.org/icon.png"));
    assert_eq!(d.app_id.as_deref(), Some("custom.id"));

    let mut full = DetailsMedia {
        long_description: Some("Text".to_string()),
        screenshots: Some(vec!["a.png".to_string()]),
        icon: Some("https://x/i.png".to_string()),
        app_id: Some("a.b".to_string()),
    };
    assert_eq!(remote_metadata_needs(&full), (false, false, false, false));
    assert!(!fill_from_remote_metadata(&mut full, remote_meta()));
    assert_eq!(full.long_description.as_deref(), Some("Text"));

    let mut empty = DetailsMedia { long_description: None, screenshots: None, icon: None, app_id: None };
    assert!(fill_from_remote_metadata(&mut empty, remote_meta()));
    assert_eq!(empty.app_id.as_deref(), Some("md.obsidian.Obsidian"));
    assert_eq!(empty.screenshots, Some(vec!["https://s/1.png".to_string()]));
}

#[test]
fn reorder_keeps_order_within_a_rank() {
    let mut vs = vec![variant("aur", "aur"), variant("repo", "extra"), variant("flatpak", "flathub"), variant("repo", "core")];
    let extra = src("repo", "extra");
    reorder_variants_for_selected_source(&mut vs, Some(&extra), None);
    let ids: Vec<&str> = vs.iter().map(|v| v.source.id.as_str()).collect();
    assert_eq!(ids, vec!["extra", "core", "aur", "flathub"]);
}
