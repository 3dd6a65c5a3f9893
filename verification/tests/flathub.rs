use monarch_store::flathub::{
    flathub_to_app_metadata, get_flathub_app_id, get_package_name_from_app_id,
    parse_installed_flatpaks, screenshot_urls_from_flathub, FlathubApiClient, FlathubMetadata,
    FlathubRelease, FlathubScreenshot, FlathubScreenshotSize,
};

fn size(w: &str, src: &str) -> FlathubScreenshotSize {
    FlathubScreenshotSize { width: w.to_string(), height: "1".to_string(), scale: None, src: src.to_string() }
}

#[test]
fn heroic_maps_to_its_flathub_id() {
    assert_eq!(get_flathub_app_id("heroic-games-launcher-bin").as_deref(), Some("com.heroicgameslauncher.hgl"));
    assert_eq!(get_flathub_app_id("firefox").as_deref(), Some("org.mozilla.firefox"));
    assert_eq!(get_flathub_app_id("no-such-package"), None);
}

#[test]
fn variant_suffixes_are_stripped() {
    assert_eq!(get_flathub_app_id("firefox-nightly").as_deref(), Some("org.mozilla.firefox"));
    assert_eq!(get_flathub_app_id("gimp-git").as_deref(), get_flathub_app_id("gimp").as_deref());
}

#[test]
fn app_ids_map_back_to_packages() {
    assert_eq!(get_package_name_from_app_id(" org.mozilla.Firefox.desktop ").as_deref(), Some("firefox"));
    assert_eq!(get_package_name_from_app_id("com.google.Chrome").as_deref(), Some("google-chrome"));
    assert_eq!(get_package_name_from_app_id("   "), None);
    assert_eq!(get_package_name_from_app_id("org.example.Unknown"), None);
}

#[test]
fn screenshot_sizes_are_chosen() {
    let shots = vec![
        FlathubScreenshot { size_624: None, size_752: None, size_1248: None, sizes: Some(vec![size("624", "a624"), size("1248", "a1248"), size("752", "a752")]) },
        FlathubScreenshot { size_624: None, size_752: None, size_1248: None, sizes: Some(vec![size("100", "b100"), size("300", "b300"), size("x", "bx")]) },
        FlathubScreenshot { size_624: Some("c624".to_string()), size_752: Some("c752".to_string()), size_1248: None, sizes: None },
        FlathubScreenshot { size_624: None, size_752: None, size_1248: None, sizes: Some(vec![size("x", "dx")]) },
    ];
    assert_eq!(screenshot_urls_from_flathub(&shots), vec!["a1248", "b300", "c752"]);
}

#[test]
fn metadata_conversion() {
    let meta = FlathubMetadata {
        id: None,
        name: Some("GIMP".to_string()),
        summary: Some("Image editor".to_string()),
        description: Some("<p>Edit</p>".to_string()),
        icon: None,
        screenshots: vec![],
        developer_name: Some("The GIMP Team".to_string()),
        project_license: Some("GPL-3.0".to_string()),
        categories: vec![],
        releases: Some(vec![FlathubRelease { version: Some("2.10".to_string()), timestamp: Some("1700000000".to_string()) }]),
    };
    let m = flathub_to_app_metadata(&meta, "gimp", Some("Edit".to_string()));
    assert_eq!(m.app_id, "gimp");
    assert_eq!(m.name, "GIMP");
    assert_eq!(m.pkg_name.as_deref(), Some("gimp"));
    assert_eq!(m.version.as_deref(), Some("2.10"));
    assert_eq!(m.last_updated, Some(1_700_000_000));
    assert_eq!(m.maintainer.as_deref(), Some("The GIMP Team"));
    assert_eq!(m.description.as_deref(), Some("Edit"));
    assert!(!m.is_local);
}

#[test]
fn installed_flatpaks_are_parsed() {
    let out = "org.gimp.GIMP\tGIMP\t2.10\tImage editor\tflathub\nbroken line\n com.x.Y \t Y \t1\t s \t beta \n";
    let apps = parse_installed_flatpaks(out);
    assert_eq!(apps.len(), 2);
    assert_eq!(apps[0].app_id, "org.gimp.GIMP");
    assert_eq!(apps[0].origin, "flathub");
    assert_eq!(apps[1].app_id, "com.x.Y");
    assert_eq!(apps[1].summary, "s");
}

#[test]
fn client_caches() {
    let mut c = FlathubApiClient::new(vec![("q".to_string(), None)]);
    assert!(c.cache.is_empty());
    assert_eq!(c.search_cache.len(), 1);
    c.clear_cache();
    assert!(c.search_cache.is_empty());
}

#[test]
fn reverse_lookup_covers_every_mapped_id() {
    assert_eq!(get_package_name_from_app_id("md.obsidian.Obsidian"), Some("obsidian".to_string()));
    assert_eq!(get_package_name_from_app_id(" com.teamviewer.TeamViewer.desktop "), Some("teamviewer".to_string()));
    assert_eq!(get_package_name_from_app_id("com.jetbrains.Toolbox"), Some("jetbrains-toolbox".to_string()));
    assert_eq!(get_package_name_from_app_id("com.visualstudio.code"), Some("visual-studio-code-bin".to_string()));
    let names = ["obsidian", "bottles", "anydesk", "figma-linux-bin", "notion-app-enhanced", "authy", "stremio", "plex-desktop", "postman-bin", "atom", "sublime-text-4", "discord-canary", "firefox", "gimp", "steam"];
    for n in names {
        let id = get_flathub_app_id(n).expect("mapped");
        let back = get_package_name_from_app_id(&id).expect("reverse");
        assert_eq!(get_flathub_app_id(&back).map(|s| s.to_lowercase()), Some(id.to_lowercase()));
    }
}

#[test]
fn packaging_suffixes_keep_the_app_id_and_ids_map_back() {
    let names = ["firefox", "chromium", "google-chrome", "brave", "brave-bin", "brave-browser", "vivaldi", "microsoft-edge-stable-bin", "discord", "slack-desktop", "telegram-desktop", "signal-desktop", "zoom", "teams", "spotify", "spotify-launcher", "vlc", "obs-studio", "gimp", "inkscape", "blender", "kdenlive", "audacity", "visual-studio-code-bin", "code", "jetbrains-toolbox", "sublime-text-4", "atom", "postman-bin", "steam", "lutris", "lutris-ge", "minecraft-launcher", "libreoffice-fresh", "libreoffice-still", "onlyoffice-bin", "bitwarden", "keepassxc", "thunderbird", "filezilla", "qbittorrent", "transmission-gtk", "virtualbox", "bottles", "anydesk", "anydesk-bin", "obsidian", "teams-for-linux", "heroic", "figma-linux-bin", "heroic-games-launcher", "heroic-games-launcher-bin", "notion-app-enhanced", "telegram-desktop-bin", "visual-studio-code-insiders-bin", "insomnia-bin", "discord-canary", "discord-ptb", "element-desktop", "standard-notes-bin", "simplenote-bin", "bitwarden-desktop", "authy", "mailspring", "balena-etcher", "stremio", "plex-desktop", "teamviewer"];
    for n in names {
        let id = get_flathub_app_id(n).expect("mapped");
        let back = get_package_name_from_app_id(&id).expect("every mapped id maps back");
        assert_eq!(get_flathub_app_id(&back).map(|s| s.to_lowercase()), Some(id.to_lowercase()));
        if !["-bin", "-git", "-nightly", "-beta", "-appimage"].iter().any(|s| n.ends_with(s)) {
            for s in ["-bin", "-git", "-nightly", "-beta", "-appimage"] {
                assert_eq!(get_flathub_app_id(&format!("{}{}", n, s)), Some(id.clone()), "{}{}", n, s);
            }
        }
    }
}
