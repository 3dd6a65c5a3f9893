use monarch_store::pacman_conf::{
    collect_repo_sections_from_conf, get_repo_servers_from_conf, parse_conf_line,
    resolve_server_template_to_db_url, server_template_to_db_url, ConfLine,
};

fn lines(text: &str) -> Vec<ConfLine> {
    text.lines().map(parse_conf_line).collect()
}

#[test]
fn conf_lines_are_classified() {
    assert!(matches!(parse_conf_line("   "), ConfLine::Blank));
    assert!(matches!(parse_conf_line("# [core]"), ConfLine::Blank));
    match parse_conf_line("  [ core ]  ") {
        ConfLine::Section(s) => assert_eq!(s, "core"),
        other => panic!("unexpected {:?}", other),
    }
    match parse_conf_line("Server = https://mirror/$repo/os/$arch") {
        ConfLine::Server(s) => assert_eq!(s, "https://mirror/$repo/os/$arch"),
        other => panic!("unexpected {:?}", other),
    }
    match parse_conf_line("Include = /etc/pacman.d/mirrorlist") {
        ConfLine::Include(s) => assert_eq!(s, "/etc/pacman.d/mirrorlist"),
        other => panic!("unexpected {:?}", other),
    }
    assert!(matches!(parse_conf_line("SigLevel = Required"), ConfLine::Other));
}

#[test]
fn sections_in_first_declaration_order() {
    let conf = "[options]\nArchitecture = auto\n[core]\nInclude = /etc/pacman.d/mirrorlist\n[extra]\n[core]\n[chaotic-aur]\n";
    assert_eq!(collect_repo_sections_from_conf(&lines(conf)), vec!["core", "extra", "chaotic-aur"]);
    assert!(collect_repo_sections_from_conf(&lines("[options]\n")).is_empty());
}

#[test]
fn server_templates() {
    assert_eq!(
        server_template_to_db_url("core", "https://m.example/$repo/os/$arch/", "x86_64").as_deref(),
        Some("https://m.example/core/os/x86_64/core.db")
    );
    assert_eq!(
        server_template_to_db_url("cachyos-v3", "https://c.example/${arch_v3}/$repo", "x86_64").as_deref(),
        Some("https://c.example/x86_64_v3/cachyos-v3/cachyos-v3.db")
    );
    assert_eq!(
        server_template_to_db_url("x", " https://e.example/x.db ", "x86_64").as_deref(),
        Some("https://e.example/x.db")
    );
    assert_eq!(server_template_to_db_url("x", "   ", "x86_64"), None);
    assert_eq!(server_template_to_db_url("x", "///", "x86_64"), None);
    assert_eq!(
        resolve_server_template_to_db_url("extra", "https://m/$repo/os/$arch", "aarch64").as_deref(),
        Some("https://m/extra/os/aarch64/extra.db")
    );
}

#[test]
fn servers_grouped_by_repository() {
    let conf = "[options]\nServer = https://ignored/$repo\n[core]\nServer = https://a/$repo/os/$arch\nServer = https://b/$repo/os/$arch\n[extra]\nServer =\nServer = https://a/$repo/os/$arch\n";
    let mut map = get_repo_servers_from_conf(&lines(conf), "x86_64");
    map.sort_by(|a, b| a.0.cmp(&b.0));
    assert_eq!(map.len(), 2);
    assert_eq!(map[0].0, "core");
    assert_eq!(map[0].1, vec!["https://a/core/os/x86_64/core.db", "https://b/core/os/x86_64/core.db"]);
    assert_eq!(map[1].0, "extra");
    assert_eq!(map[1].1, vec!["https://a/extra/os/x86_64/extra.db"]);
}

#[test]
fn included_servers_count_for_the_including_section() {
    // "[core]\nInclude = /etc/pacman.d/mirrorlist\n" with the mirror list's lines in place
    // of the Include line, as the configuration reader expands it.
    match parse_conf_line("Include = /etc/pacman.d/mirrorlist") {
        ConfLine::Include(p) => assert_eq!(p, "/etc/pacman.d/mirrorlist"),
        other => panic!("unexpected {:?}", other),
    }
    match parse_conf_line("include=\"/etc/pacman.d/x.conf\"") {
        ConfLine::Include(p) => assert_eq!(p, "/etc/pacman.d/x.conf"),
        other => panic!("unexpected {:?}", other),
    }
    let lines = vec![parse_conf_line("[core]"), parse_conf_line("Server = https://m.example/$repo/os/")];
    let map = get_repo_servers_from_conf(&lines, "x86_64");
    assert_eq!(map, vec![("core".to_string(), vec!["https://m.example/core/os/core.db".to_string()])]);
}
