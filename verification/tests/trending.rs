use monarch_store::models::{Package, PackageSource};
use monarch_store::search_core::{search_packages_from_snapshot, SearchOptions};
use monarch_store::trending::{add_unlisted, cachyos_spotlight_names, trending_fallback_names, trending_inclusion};

fn pkg(name: &str, repo: &str) -> Package {
    Package::basic(name.to_string(), String::new(), "1".to_string(), PackageSource::new("repo", repo, "1", "Repo"))
}

fn names(ps: &[Package]) -> Vec<&str> {
    ps.iter().map(|p| p.name.as_str()).collect()
}

#[test]
fn trending_sources_follow_backend_and_request() {
    assert_eq!(trending_inclusion(&None, true, false, true), (true, false, true));
    let opts = SearchOptions {
        flatpak_enabled: Some(false),
        aur_enabled: None,
        chaotic_enabled: Some(true),
        for_installed_lookup: Some(true),
    };
    assert_eq!(trending_inclusion(&Some(opts), true, true, false), (false, true, false));
}

#[test]
fn spotlight_adds_only_unlisted_names() {
    let keys = cachyos_spotlight_names();
    assert_eq!(keys, vec!["linux-cachyos", "cachyos-settings", "cachyos-browser", "cachyos-fish-config"]);
    let mut list = vec![pkg("firefox", "extra"), pkg("cachyos-settings", "cachyos")];
    let built: Vec<Option<Package>> = keys.iter().map(|k| Some(pkg(k, "cachyos"))).collect();
    add_unlisted(&mut list, &keys, built);
    assert_eq!(names(&list), vec!["firefox", "cachyos-settings", "linux-cachyos", "cachyos-browser", "cachyos-fish-config"]);
    assert_eq!(list[1].source.id, "cachyos");
}

#[test]
fn chaotic_trending_skips_missing_and_repeated_names() {
    let mut list = vec![pkg("a", "extra")];
    let keys = vec!["b".to_string(), "a".to_string(), "c".to_string(), "b".to_string()];
    let built = vec![Some(pkg("b", "chaotic-aur")), Some(pkg("a", "chaotic-aur")), None, Some(pkg("b", "chaotic-aur"))];
    add_unlisted(&mut list, &keys, built);
    assert_eq!(names(&list), vec!["a", "b"]);
    assert_eq!(list[0].source.id, "extra");
}

#[test]
fn trending_falls_back_on_twenty_featured_names() {
    let fallback = trending_fallback_names(&vec![]);
    assert_eq!(fallback.len(), 20);
    assert_eq!(fallback[0], "steam");
}

#[test]
fn small_snapshot_returns_every_name_match() {
    let snapshot = vec![pkg("firefox", "extra"), pkg("firefox-developer-edition", "extra"), pkg("vlc", "extra"), pkg("librewolf-firefox-theme", "extra")];
    let found = search_packages_from_snapshot(&snapshot, "firefox");
    let mut got = names(&found);
    got.sort();
    assert_eq!(got, vec!["firefox", "firefox-developer-edition", "librewolf-firefox-theme"]);
}
