use monarch_store::discovery::{
    builtin_essentials, build_quick_starts, default_category_cache_key, essentials_override_lines,
    featured_from_cache, flathub_hit_to_package, get_all_featured_names,
    get_featured_names_for_category, hardcoded_discovery_names, is_cache_stale,
    merge_essentials_with_featured, normalize_category_key, FlathubPopularHit,
    COMBINED_ESSENTIALS_MAX, ESSENTIALS_MAX,
};

fn strings(v: &[&str]) -> Vec<String> {
    v.iter().map(|s| s.to_string()).collect()
}

#[test]
fn category_keys_fold_synonyms() {
    assert_eq!(normalize_category_key(" Games "), "game");
    assert_eq!(normalize_category_key("Internet"), "network");
    assert_eq!(normalize_category_key("AudioVideo"), "audiovideo");
    assert_eq!(normalize_category_key("Productivity"), "office");
    assert_eq!(normalize_category_key("Science"), "science");
}

#[test]
fn featured_names_builtin_or_cached() {
    let games = get_featured_names_for_category(" GAMES ", None);
    assert_eq!(games[0], "steam");
    assert_eq!(games.len(), 12);
    assert!(get_featured_names_for_category("science", None).is_empty());
    let cached = get_featured_names_for_category("games", Some(strings(&["a", "b"])));
    assert_eq!(cached, vec!["a", "b"]);
}

#[test]
fn cached_featured_lists_expire() {
    let week = 7 * 24 * 60 * 60;
    assert_eq!(featured_from_cache(100, 100 + week - 1, Some(strings(&["x"]))), Some(strings(&["x"])));
    assert_eq!(featured_from_cache(100, 100 + week, Some(strings(&["x"]))), None);
    assert_eq!(featured_from_cache(100, 200, Some(vec![])), None);
    assert_eq!(featured_from_cache(100, 200, None), None);
}

#[test]
fn all_featured_names_have_no_repeats() {
    let all = get_all_featured_names(&vec![]);
    let mut seen = std::collections::HashSet::new();
    for n in &all {
        assert!(seen.insert(n.clone()), "repeated {}", n);
    }
    assert!(all.contains(&"steam".to_string()));
    assert!(all.contains(&"gparted".to_string()));
    assert_eq!(all.iter().filter(|n| n.as_str() == "gimp").count(), 1);
}

#[test]
fn essentials_merge_keeps_list_first_and_caps() {
    let merged = merge_essentials_with_featured(strings(&["firefox", "vlc"]), &strings(&["vlc", "gimp", "firefox"]));
    assert_eq!(merged, vec!["firefox", "vlc", "gimp"]);
    let many: Vec<String> = (0..200).map(|i| format!("p{}", i)).collect();
    assert_eq!(merge_essentials_with_featured(many, &vec![]).len(), COMBINED_ESSENTIALS_MAX);
}

#[test]
fn builtin_essentials_lists() {
    let plain = builtin_essentials(false);
    assert_eq!(plain.len(), ESSENTIALS_MAX);
    assert_eq!(plain[0], "firefox");
    assert!(!plain.contains(&"paru".to_string()));
    let cachy = builtin_essentials(true);
    assert_eq!(cachy.len(), ESSENTIALS_MAX);
}

#[test]
fn override_file_lines() {
    let names = essentials_override_lines("# comment\n firefox \n\n  # other\nvlc\n");
    assert_eq!(names, vec!["firefox", "vlc"]);
    let many: String = (0..50).map(|i| format!("p{}\n", i)).collect();
    assert_eq!(essentials_override_lines(&many).len(), ESSENTIALS_MAX);
}

#[test]
fn staleness_and_keys() {
    assert!(!is_cache_stale(1_000, 1_000 + 86_400));
    assert!(is_cache_stale(1_000, 1_000 + 86_401));
    assert!(!is_cache_stale(u64::MAX, 0));
    assert_eq!(default_category_cache_key("Game"), "cat:Game::featured:ftrue:atrue:ctrue:ifalse:v8");
}

#[test]
fn quick_starts_and_hardcoded_names() {
    let q = build_quick_starts();
    assert_eq!(q.len(), 6);
    assert_eq!(q[0].id, "web-browsers");
    assert_eq!(q[0].query.as_deref(), Some("browser"));
    assert_eq!(q[2].category.as_deref(), Some("Game"));
    assert!(!hardcoded_discovery_names("essentials").is_empty());
    assert!(!hardcoded_discovery_names("trending").is_empty());
}

#[test]
fn flathub_hits_become_packages() {
    let hit = FlathubPopularHit {
        app_id: "org.gimp.GIMP".to_string(),
        name: "GIMP".to_string(),
        summary: None,
        icon: Some("icon.png".to_string()),
    };
    let p = flathub_hit_to_package(&hit);
    assert_eq!(p.name, "org.gimp.GIMP");
    assert_eq!(p.display_name.as_deref(), Some("GIMP"));
    assert_eq!(p.description, "");
    assert_eq!(p.version, "latest");
    assert_eq!(p.source.source_type, "flatpak");
    assert_eq!(p.source.label, "Flatpak (Sandboxed)");
    assert_eq!(p.app_id.as_deref(), Some("org.gimp.GIMP"));
    assert_eq!(p.available_sources.as_ref().map(|v| v.len()), Some(1));
}

#[test]
fn all_featured_names_without_cache() {
    let all = get_all_featured_names(&vec![]);
    assert_eq!(all.len(), 91);
    assert_eq!(all[0], "steam");
}
