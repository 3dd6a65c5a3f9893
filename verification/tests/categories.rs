use monarch_store::categories::{
    apply_repo_filter, category_cache_key, paginate, sort_category_packages, source_inclusion,
};
use monarch_store::models::{Package, PackageSource};
use monarch_store::search_core::{CategoryQuery, SearchOptions};

fn pkg(name: &str, sources: &[(&str, &str)]) -> Package {
    let mut p = Package::basic(name.to_string(), String::new(), "1".to_string(), PackageSource::new("repo", "extra", "1", "Arch"));
    p.available_sources = Some(sources.iter().map(|(t, i)| PackageSource::new(t, i, "1", i)).collect());
    p
}

fn names(v: &[Package]) -> Vec<&str> {
    v.iter().map(|p| p.name.as_str()).collect()
}

fn opts(f: Option<bool>, a: Option<bool>, c: Option<bool>, i: Option<bool>) -> Option<SearchOptions> {
    Some(SearchOptions { flatpak_enabled: f, aur_enabled: a, chaotic_enabled: c, for_installed_lookup: i })
}

#[test]
fn sources_included() {
    assert_eq!(source_inclusion(&None, true, false, true), (true, false, true, false));
    assert_eq!(source_inclusion(&opts(Some(false), None, None, None), true, true, true), (false, true, true, false));
    assert_eq!(source_inclusion(&opts(Some(false), Some(false), None, Some(true)), false, false, false), (true, true, true, true));
}

#[test]
fn cache_keys() {
    let q = CategoryQuery {
        category: "Game".to_string(),
        repo_filter: Some(vec!["official".to_string(), "aur".to_string()]),
        sort_by: None,
        page: 1,
        limit: 20,
        options: None,
    };
    assert_eq!(category_cache_key(&q, true, false, true, false), "cat:Game:official,aur:default:ftrue:afalse:ctrue:ifalse:v8");
    let q2 = CategoryQuery { repo_filter: None, sort_by: Some("featured".to_string()), ..q };
    assert_eq!(category_cache_key(&q2, true, true, true, false), "cat:Game::featured:ftrue:atrue:ctrue:ifalse:v8");
}

#[test]
fn repo_filter_keeps_matching_packages() {
    let ps = vec![
        pkg("a", &[("repo", "core")]),
        pkg("b", &[("flatpak", "flathub")]),
        pkg("c", &[("repo", "chaotic-aur")]),
        pkg("d", &[("aur", "aur"), ("repo", "cachyos-v3")]),
    ];
    let official = apply_repo_filter(ps.clone(), &Some(vec!["Repo".to_string()]));
    assert_eq!(names(&official), vec!["a"]);
    let chaotic = apply_repo_filter(ps.clone(), &Some(vec!["chaotic".to_string(), "flatpak".to_string()]));
    assert_eq!(names(&chaotic), vec!["b", "c"]);
    let cachy = apply_repo_filter(ps.clone(), &Some(vec!["cachyos".to_string()]));
    assert_eq!(names(&cachy), vec!["d"]);
    assert_eq!(apply_repo_filter(ps.clone(), &Some(vec!["ALL".to_string(), "aur".to_string()])).len(), 4);
    assert_eq!(apply_repo_filter(ps.clone(), &Some(vec![])).len(), 4);
    assert_eq!(apply_repo_filter(ps, &None).len(), 4);
}

#[test]
fn featured_first_then_by_name() {
    let ps = vec![pkg("zed", &[]), pkg("Steam", &[]), pkg("alpha", &[]), pkg("lutris", &[]), pkg("Beta", &[])];
    let featured = vec!["steam".to_string(), "Lutris".to_string()];
    let sorted = sort_category_packages(&ps, &featured);
    assert_eq!(names(&sorted), vec!["Steam", "lutris", "alpha", "Beta", "zed"]);
    assert_eq!(sorted[0].is_featured, Some(true));
    assert_eq!(sorted[1].is_featured, Some(true));
    assert_eq!(sorted[2].is_featured, None);
    let plain = sort_category_packages(&ps, &vec![]);
    assert_eq!(names(&plain), vec!["alpha", "Beta", "lutris", "Steam", "zed"]);
}

#[test]
fn pages() {
    let ps: Vec<Package> = (0..5).map(|i| pkg(&format!("p{}", i), &[])).collect();
    let first = paginate(&ps, 1, 2);
    assert_eq!(names(&first.packages), vec!["p0", "p1"]);
    assert_eq!(first.total, 5);
    assert!(first.has_more);
    let last = paginate(&ps, 3, 2);
    assert_eq!(names(&last.packages), vec!["p4"]);
    assert!(!last.has_more);
    let zero = paginate(&ps, 0, 2);
    assert_eq!(names(&zero.packages), vec!["p0", "p1"]);
    assert_eq!(zero.page, 0);
    let past = paginate(&ps, 9, 2);
    assert!(past.packages.is_empty());
    assert!(!past.has_more);
}
