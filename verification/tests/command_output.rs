use monarch_store::command_output::{
    app_update_version, apply_installed_versions, installed_db_from_desc, needrestart_services,
    parse_flatpak_updates, parse_flatpak_versions, parse_local_search, resolve_desktop_entry,
};

#[test]
fn installed_db_is_read_after_its_marker() {
    let desc = "%NAME%\nfirefox\n\n%INSTALLED_DB%\n\n  extra  \n%REASON%\n1\n";
    assert_eq!(installed_db_from_desc(desc), Some("extra".to_string()));
    assert_eq!(installed_db_from_desc("%NAME%\nfirefox\n"), None);
    assert_eq!(installed_db_from_desc("%INSTALLED_DB%\n\n   \n"), None);
    assert_eq!(installed_db_from_desc("  %INSTALLED_DB%  \r\nchaotic-aur\r\n"), Some("chaotic-aur".to_string()));
}

#[test]
fn local_search_listing_is_parsed() {
    let out = "local/heroic-games-launcher-bin 2.19.0-1\n    A games launcher\nlocal/yay 12.2-1 (base)\n    AUR helper written in Go\nlocal/broken\nlocal/local/odd 1\n";
    let pkgs = parse_local_search(out);
    assert_eq!(pkgs.len(), 3);
    assert_eq!(pkgs[0].name, "heroic-games-launcher-bin");
    assert_eq!(pkgs[0].version, "2.19.0-1");
    assert_eq!(pkgs[0].description, "A games launcher");
    assert!(pkgs[0].installed);
    assert_eq!(pkgs[0].source.source_type, "local");
    assert_eq!(pkgs[0].source.label, "Installed (Local)");
    assert_eq!(pkgs[0].source.version, "2.19.0-1");
    assert_eq!(pkgs[1].name, "yay");
    assert_eq!(pkgs[1].description, "AUR helper written in Go");
    assert_eq!(pkgs[2].name, "odd");
    assert_eq!(pkgs[2].description, "");
    assert!(parse_local_search("").is_empty());
}

#[test]
fn flatpak_updates_and_installed_versions() {
    let out = "org.gimp.GIMP\t2.10.38\t123456\ncom.example.App\t1.0\tunknown\nshort\tline\n";
    let mut ups = parse_flatpak_updates(out);
    assert_eq!(ups.len(), 2);
    assert_eq!(ups[0].name, "org.gimp.GIMP");
    assert_eq!(ups[0].new_version, "2.10.38");
    assert_eq!(ups[0].size, Some(123456));
    assert_eq!(ups[0].current_version, "Unknown");
    assert_eq!(ups[0].source.id, "flathub");
    assert_eq!(ups[0].source.label, "Flatpak (Sandboxed)");
    assert_eq!(ups[1].size, None);

    let versions = parse_flatpak_versions("org.gimp.GIMP\t2.10.36\norg.gimp.GIMP\t2.10.37\nlonely\n");
    assert_eq!(versions.len(), 2);
    apply_installed_versions(&mut ups, &versions);
    assert_eq!(ups[0].current_version, "2.10.37");
    assert_eq!(ups[0].new_version, "2.10.38");
    assert_eq!(ups[1].current_version, "Unknown");
}

#[test]
fn needrestart_services_are_listed() {
    let out = "NEEDRESTART-VER: 3.6\nNEEDRESTART-SVC: sshd.service\nNEEDRESTART-SVC:cups.service\nNEEDRESTART-KSTA: 1\n";
    assert_eq!(needrestart_services(out), vec!["sshd.service".to_string(), "cups.service".to_string()]);
    assert!(needrestart_services("").is_empty());
}

#[test]
fn store_update_version_from_checkupdates() {
    let out = "linux 6.1-1 -> 6.2-1\nmonarch-store a -> b -> c\nmonarch-store 0.2.29-1 -> 0.2.30-1\n";
    assert_eq!(app_update_version(out), Some("0.2.30-1".to_string()));
    assert_eq!(app_update_version("linux 6.1-1 -> 6.2-1\n"), None);
    assert_eq!(app_update_version("monarch-store-bin 1 -> 2\n"), None);
}

#[test]
fn desktop_entry_is_resolved() {
    let names = vec!["org.kde.dolphin.desktop".to_string(), "firefox.desktop".to_string()];
    assert_eq!(resolve_desktop_entry(&names, "firefox"), Some("firefox".to_string()));
    let names = vec!["steam-native.desktop".to_string()];
    assert_eq!(resolve_desktop_entry(&names, "steam"), Some("steam-native".to_string()));
    let names = vec!["firefox.txt".to_string(), "other.desktop".to_string()];
    assert_eq!(resolve_desktop_entry(&names, "firefox"), None);
}
