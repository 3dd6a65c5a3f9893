use monarch_store::search_core::is_searchable_query;
use monarch_store::models::{Package, PackageSource};
use monarch_store::ranking::calculate_relevance;
use monarch_store::search::{self as legacy, get_featured_apps, get_friendly_label, normalize_name};
use monarch_store::search_core::{
    build_search_suggestions, normalize_search_query, package_search_haystack,
    search_alias_terms, search_aliases, search_packages_from_snapshot, terms_of,
};

fn pkg(name: &str) -> Package {
    Package::basic(name.to_string(), String::new(), "1".to_string(), PackageSource::new("repo", "extra", "1", "Arch Official"))
}

fn with_display(name: &str, display: &str) -> Package {
    let mut p = pkg(name);
    p.display_name = Some(display.to_string());
    p
}

#[test]
fn relevance_exact_name_is_full() {
    assert_eq!(calculate_relevance(&pkg("firefox"), "firefox", None, &vec![]), 100);
}

#[test]
fn relevance_siblings_and_words() {
    assert_eq!(calculate_relevance(&pkg("google-chrome"), "chrome", None, &vec![]), 85);
    assert_eq!(calculate_relevance(&pkg("chrome-gnome-shell"), "chrome", None, &vec![]), 60);
    assert_eq!(calculate_relevance(&with_display("libfoo", "Foo Studio"), "studio", None, &vec![]), 55);
    assert_eq!(calculate_relevance(&pkg("xyz"), "abc", None, &vec![]), 0);
}

#[test]
fn relevance_friendly_popular_and_app_id() {
    let gimp = with_display("gimp", "GIMP");
    assert_eq!(
        calculate_relevance(&gimp, "image", Some("GNU Image Manipulation Program"), &vec!["gimp".to_string()]),
        90
    );
    assert_eq!(calculate_relevance(&gimp, "image", Some("GNU Image Manipulation Program"), &vec![]), 85);
    let mut foo = pkg("foo");
    foo.app_id = Some("org.foo.App".to_string());
    assert_eq!(calculate_relevance(&foo, "org.foo.app", None, &vec![]), 90);
    assert_eq!(calculate_relevance(&with_display("x-y", "Zed"), "zed", None, &vec![]), 95);
}

#[test]
fn legacy_relevance() {
    assert_eq!(legacy::calculate_relevance(&pkg("vlc"), "vlc", None, &vec![]), 100);
    assert_eq!(legacy::calculate_relevance(&pkg("gimp"), "image", Some("GNU Image Manipulation Program"), &vec![]), 95);
    assert_eq!(legacy::calculate_relevance(&pkg("vlc-git"), "vlc", None, &vec!["vlc-git"]), 80);
    assert_eq!(legacy::calculate_relevance(&pkg("vlc-git"), "vlc", None, &vec![]), 50);
    assert_eq!(legacy::calculate_relevance(&pkg("libvlc"), "vlc", None, &vec![]), 20);
}

#[test]
fn distro_aware_labels_and_names() {
    assert_eq!(get_friendly_label("core", "manjaro"), "Manjaro Official");
    assert_eq!(get_friendly_label("extra", "arch"), "Arch Official");
    assert_eq!(get_friendly_label("cachyos-v3", "cachyos"), "CachyOS (Optimized)");
    assert_eq!(get_friendly_label("weird", "arch"), "Custom Repository");
    assert_eq!(normalize_name("  FireFox "), "firefox");
    assert_eq!(get_featured_apps("Office")[0], "libreoffice-fresh");
    assert!(get_featured_apps("nothing").is_empty());
}

#[test]
fn queries_are_normalized() {
    assert_eq!(normalize_search_query("  @aur  Video   Editor in:AudioVideo sort:new "), "Video Editor");
    assert_eq!(normalize_search_query("@flatpak"), "");
    let terms: Vec<String> = terms_of(&"Web  BROWSER".chars().collect::<Vec<char>>())
        .into_iter()
        .map(|t| t.into_iter().collect())
        .collect();
    assert_eq!(terms, vec!["web", "browser"]);
}

#[test]
fn aliases_and_suggestions() {
    assert_eq!(search_aliases(" Photoshop "), Some(("Popular alternatives to Photoshop", "gimp krita")));
    assert_eq!(search_aliases("paint"), None);
    let alias_terms: Vec<String> = search_alias_terms("office").into_iter().map(|t| t.into_iter().collect()).collect();
    assert_eq!(alias_terms, vec!["libreoffice", "onlyoffice", "thunderbird"]);
    let none = build_search_suggestions(" Browser ", &vec![]);
    assert_eq!(none.len(), 4);
    assert_eq!(none[0].reason, "alias");
    assert_eq!(none[1].query, "@official browser");
    assert_eq!(none[2].query, "@flatpak browser");
    assert_eq!(none[3].query, "in:internet");
    let some = build_search_suggestions("zzz", &vec![pkg("zzz")]);
    assert!(some.is_empty());
}

#[test]
fn haystack_holds_names_and_sources() {
    let mut p = with_display("GIMP", "GNU Image");
    p.available_sources = Some(vec![PackageSource::new_with_name("flatpak", "Flathub", "1", "Flatpak", "org.gimp.GIMP")]);
    assert_eq!(package_search_haystack(&p), " gimp gnu image   flathub flatpak org.gimp.gimp");
}

#[test]
fn snapshot_search_ranks_and_limits() {
    let mut snapshot = vec![pkg("libreoffice-fresh"), pkg("firefox"), pkg("firefox-esr"), pkg("vlc")];
    snapshot[2].installed = true;
    let found = search_packages_from_snapshot(&snapshot, " Firefox ");
    let names: Vec<&str> = found.iter().map(|p| p.name.as_str()).collect();
    assert_eq!(names, vec!["firefox", "firefox-esr"]);
    assert!(search_packages_from_snapshot(&snapshot, "f").is_empty());
    let unrelated = search_packages_from_snapshot(&snapshot, "qqqq");
    let names: Vec<&str> = unrelated.iter().map(|p| p.name.as_str()).collect();
    assert_eq!(names, vec!["firefox-esr"]);
    let many: Vec<Package> = (0..60).map(|i| pkg(&format!("app{:02}", i))).collect();
    let capped = search_packages_from_snapshot(&many, "app");
    assert_eq!(capped.len(), 50);
    assert_eq!(capped[0].name, "app00");
}

use monarch_store::search_core::{chaotic_package_matches, merge_by_name, search_cache_key};

#[test]
fn search_cache_keys() {
    assert_eq!(search_cache_key("  FireFox ", true, false, true, false), "q=firefox::f=true::a=false::c=true::i=false");
}

#[test]
fn chaotic_matching() {
    let none: Vec<String> = vec![];
    assert!(chaotic_package_matches("Firefox-Nightly", None, "firefox", &none));
    assert!(chaotic_package_matches("obs-studio-git", None, "studio obs", &none));
    assert!(chaotic_package_matches("heroic-games-launcher-bin", None, "heroic", &none));
    assert!(chaotic_package_matches("hgl", None, "heroic", &vec!["HGL".to_string()]));
    assert!(chaotic_package_matches("xyz", Some("A Fast Browser"), "fast browser", &none));
    assert!(!chaotic_package_matches("xyz", Some("editor"), "browser", &none));
}

#[test]
fn merged_results_keep_first_of_each_name() {
    let mut a2 = pkg("a");
    a2.version = "2".to_string();
    let merged = merge_by_name(vec![pkg("a"), pkg("b"), a2, pkg("c"), pkg("b")]);
    let names: Vec<&str> = merged.iter().map(|p| p.name.as_str()).collect();
    assert_eq!(names, vec!["a", "b", "c"]);
    assert_eq!(merged[0].version, "1");
}

#[test]
fn short_queries_are_not_searched() {
    assert!(!is_searchable_query(" a "));
    assert!(!is_searchable_query(""));
    assert!(is_searchable_query("vi"));
    assert!(is_searchable_query(" é "));
}
