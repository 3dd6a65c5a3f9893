use monarch_store::aur_deps::{dependency_name_of, AurDepResolver, DepQuery};

fn strings(v: &[&str]) -> Vec<String> {
    v.iter().map(|s| s.to_string()).collect()
}

fn is_info(q: &DepQuery, n: &str) -> bool {
    matches!(q, DepQuery::Info(x) if x == n)
}
fn is_satisfied(q: &DepQuery, n: &str) -> bool {
    matches!(q, DepQuery::Satisfied(x) if x == n)
}
fn is_in_repos(q: &DepQuery, n: &str) -> bool {
    matches!(q, DepQuery::InRepos(x) if x == n)
}

#[test]
fn dependency_names_drop_version_constraints() {
    assert_eq!(dependency_name_of("glibc>=2.38"), "glibc");
    assert_eq!(dependency_name_of(" python-foo = 1.2 "), "python-foo");
    assert_eq!(dependency_name_of("qt6-base<7"), "qt6-base");
    assert_eq!(dependency_name_of("plain"), "plain");
    assert_eq!(dependency_name_of("<1"), "");
}

#[test]
fn dependencies_are_built_before_dependents() {
    let (mut r, q) = AurDepResolver::begin("app");
    assert!(is_info(&q, "app"));
    let q = r.on_info(Some(strings(&["libb>=1.0", "glibc", "libc"])));
    assert!(is_satisfied(&q, "libb"));
    let q = r.on_satisfied(false);
    assert!(is_in_repos(&q, "libb"));
    let q = r.on_in_repos(false);
    assert!(is_info(&q, "libb"));
    let q = r.on_info(Some(strings(&["libc"])));
    assert!(is_satisfied(&q, "libc"));
    let q = r.on_satisfied(false);
    assert!(is_in_repos(&q, "libc"));
    let q = r.on_in_repos(false);
    assert!(is_info(&q, "libc"));
    let q = r.on_info(Some(Vec::new()));
    // libc and libb are done; back in app at its second dependency
    assert!(is_satisfied(&q, "glibc"));
    assert_eq!(r.resolved(), strings(&["libc", "libb"]));
    let q = r.on_satisfied(true);
    assert!(is_satisfied(&q, "libc"));
    let q = r.on_satisfied(false);
    assert!(is_in_repos(&q, "libc"));
    // libc was resolved already: passed over
    let q = r.on_in_repos(false);
    assert!(matches!(q, DepQuery::Done));
    assert_eq!(r.resolved(), strings(&["libc", "libb", "app"]));
}

#[test]
fn repository_packages_are_not_built() {
    let (mut r, _) = AurDepResolver::begin("tool");
    let q = r.on_info(Some(strings(&["git"])));
    assert!(is_satisfied(&q, "git"));
    let q = r.on_satisfied(false);
    assert!(is_in_repos(&q, "git"));
    let q = r.on_in_repos(true);
    assert!(matches!(q, DepQuery::Done));
    assert_eq!(r.resolved(), strings(&["tool"]));
}

#[test]
fn dependency_cycle_is_reported() {
    let (mut r, _) = AurDepResolver::begin("a");
    r.on_info(Some(strings(&["b"])));
    r.on_satisfied(false);
    let q = r.on_in_repos(false);
    assert!(is_info(&q, "b"));
    r.on_info(Some(strings(&["a"])));
    r.on_satisfied(false);
    let q = r.on_in_repos(false);
    match q {
        DepQuery::Failed(m) => assert_eq!(m, "Cycle detected in AUR dependencies involving 'a'."),
        other => panic!("unexpected {:?}", other),
    }
}

#[test]
fn unknown_package_is_reported() {
    let (mut r, _) = AurDepResolver::begin("ghost-pkg");
    match r.on_info(None) {
        DepQuery::Failed(m) => assert_eq!(m, "Package ghost-pkg not found in AUR"),
        other => panic!("unexpected {:?}", other),
    }
}

#[test]
fn too_deep_chain_is_refused() {
    let (mut r, q) = AurDepResolver::begin("p0");
    assert!(is_info(&q, "p0"));
    let mut last = q;
    for i in 1..=65 {
        let q = r.on_info(Some(vec![format!("p{}", i)]));
        assert!(is_satisfied(&q, &format!("p{}", i)));
        r.on_satisfied(false);
        last = r.on_in_repos(false);
        if i < 65 {
            assert!(is_info(&last, &format!("p{}", i)));
        }
    }
    match last {
        DepQuery::Failed(m) => assert_eq!(m, "AUR dependency depth exceeded (max 64). Possible cycle or very deep tree."),
        other => panic!("unexpected {:?}", other),
    }
}
