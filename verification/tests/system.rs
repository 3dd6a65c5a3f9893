use monarch_store::distro_context::DistroContext;
use monarch_store::system::{
    chaotic_status, color_scheme_name, detect_desktop_environment, mirror_target,
    parse_mirrorlist_latency, pretty_name_from_os_release, set_policy_allow_active,
    snapshot_status_from, system_info_from, MirrorTarget, SnapshotTool,
};

#[test]
fn timeshift_with_devices_is_ready() {
    let s = snapshot_status_from(Some((true, "Mounted /dev/sda1".to_string())), None);
    assert_eq!(s.tool, SnapshotTool::Timeshift);
    assert!(s.is_configured);
    assert_eq!(s.message, "Timeshift is ready");
}

#[test]
fn snapper_needs_a_config_below_its_header() {
    let only_header = snapshot_status_from(
        Some((true, "No devices found".to_string())),
        Some((true, "Config | Subvolume\n\n".to_string())),
    );
    assert_eq!(only_header.tool, SnapshotTool::NoTool);
    assert!(!only_header.is_configured);
    assert_eq!(only_header.message, "No snapshot tool detected or configured");
    let configured = snapshot_status_from(None, Some((true, "Config | Subvolume\nroot   | /\n".to_string())));
    assert_eq!(configured.tool, SnapshotTool::Snapper);
    let failed = snapshot_status_from(Some((false, "ok".to_string())), Some((false, "a\nb\nc".to_string())));
    assert_eq!(failed.tool, SnapshotTool::NoTool);
}

#[test]
fn policy_allow_active_is_replaced_in_its_action() {
    let policy = "<policyconfig>\
<action id=\"other\"><defaults><allow_active>no</allow_active></defaults></action>\
<action id=\"com.monarch.store.package-manage\"><defaults><allow_active>auth_admin_keep</allow_active></defaults></action>\
</policyconfig>";
    let updated = set_policy_allow_active(policy, "com.monarch.store.package-manage", "yes");
    assert_eq!(
        updated,
        "<policyconfig>\
<action id=\"other\"><defaults><allow_active>no</allow_active></defaults></action>\
<action id=\"com.monarch.store.package-manage\"><defaults><allow_active>yes</allow_active></defaults></action>\
</policyconfig>"
    );
}

#[test]
fn policy_without_the_action_is_unchanged() {
    let policy = "<action id=\"a\"><allow_active>no</allow_active></action>";
    assert_eq!(set_policy_allow_active(policy, "b", "yes"), policy);
    let no_tag = "<action id=\"a\"><defaults></defaults></action><allow_active>x</allow_active>";
    assert_eq!(set_policy_allow_active(no_tag, "a", "yes"), no_tag);
    let unclosed = "<action id=\"a\"><allow_active>no";
    assert_eq!(set_policy_allow_active(unclosed, "a", "yes"), unclosed);
}

#[test]
fn desktops_are_folded() {
    assert_eq!(detect_desktop_environment(Some("GNOME")), "gnome");
    assert_eq!(detect_desktop_environment(Some("KDE")), "kde");
    assert_eq!(detect_desktop_environment(Some("plasmawayland")), "kde");
    assert_eq!(detect_desktop_environment(Some("XFCE")), "xfce");
    assert_eq!(detect_desktop_environment(Some("X-Cinnamon")), "cinnamon");
    assert_eq!(detect_desktop_environment(Some("Hyprland")), "hyprland");
    assert_eq!(detect_desktop_environment(None), "unknown");
}

#[test]
fn color_schemes() {
    assert_eq!(color_scheme_name(Some(1)), "dark");
    assert_eq!(color_scheme_name(Some(2)), "light");
    assert_eq!(color_scheme_name(Some(0)), "system");
    assert_eq!(color_scheme_name(None), "system");
}

#[test]
fn pretty_names() {
    assert_eq!(pretty_name_from_os_release("NAME=Arch\nPRETTY_NAME=\"Arch Linux\"\nID=arch\n"), "Arch Linux");
    assert_eq!(pretty_name_from_os_release("ID=arch\n"), "Arch Linux");
    assert_eq!(pretty_name_from_os_release("PRETTY_NAME=\"CachyOS=Linux\"\n"), "CachyOS");
}

#[test]
fn system_info_fields() {
    let info = system_info_from(
        Some(" 6.9.1-arch1-1\n"),
        "PRETTY_NAME=\"EndeavourOS\"\n",
        Some("\n .--.   Pacman v6.1.0\n"),
        Some("[core]\n[chaotic-aur]\nInclude = x\n"),
        false,
        false,
        true,
    );
    assert_eq!(info.kernel, "6.9.1-arch1-1");
    assert_eq!(info.distro, "EndeavourOS");
    assert_eq!(info.pacman_version, "");
    assert!(info.chaotic_enabled);
    assert_eq!(info.cpu_optimization, "x86-64-v3 (AVX2)");
    let none = system_info_from(None, "", None, None, true, true, true);
    assert_eq!(none.kernel, "Unknown");
    assert_eq!(none.pacman_version, "Unknown");
    assert!(!none.chaotic_enabled);
    assert_eq!(none.cpu_optimization, "x86-64-v4 (Zen 4/5)");
}

#[test]
fn chaotic_status_follows_the_distribution() {
    let manjaro = DistroContext::new(Some("ID=manjaro\n"), false, false, false, vec![]);
    let s = chaotic_status(&manjaro, true);
    assert!(!s.compatible);
    assert!(s.chaotic_in_alpm);
    let arch = DistroContext::new(Some("ID=arch\n"), false, false, false, vec![]);
    assert!(chaotic_status(&arch, false).compatible);
}

#[test]
fn mirrorlist_with_latencies() {
    let text = "# ranked\nServer = https://a.example/$repo/os/$arch # 45 ms\n\
                Server=https://b.example/$repo/os/$arch\n  Server = https://c.example/ #12ms\nServer = https://d.example/\n";
    let list = parse_mirrorlist_latency(text, 3).unwrap();
    assert_eq!(list.len(), 3);
    assert_eq!(list[0].url, "https://a.example/$repo/os/$arch");
    assert_eq!(list[0].latency_ms, Some(45));
    assert_eq!(list[1].url, "https://b.example/$repo/os/$arch");
    assert_eq!(list[1].latency_ms, None);
    assert_eq!(list[2].url, "https://c.example/");
    assert_eq!(list[2].latency_ms, Some(12));
}

#[test]
fn mirrorlist_edge_cases() {
    assert!(parse_mirrorlist_latency("", 3).unwrap().is_empty());
    assert!(parse_mirrorlist_latency("#Server = https://x\n", 3).unwrap().is_empty());
    let comment_after = parse_mirrorlist_latency("Server = https://x # fast\n", 5).unwrap();
    assert_eq!(comment_after.len(), 1);
    assert_eq!(comment_after[0].latency_ms, None);
    let huge = parse_mirrorlist_latency("Server = https://x # 99999999999 ms\n", 5).unwrap();
    assert_eq!(huge[0].latency_ms, None);
    let none_taken = parse_mirrorlist_latency("Server = https://x\n", 0).unwrap();
    assert!(none_taken.is_empty());
}

#[test]
fn mirror_targets() {
    assert_eq!(mirror_target("Arch"), MirrorTarget::Arch);
    assert_eq!(mirror_target(""), MirrorTarget::Arch);
    assert_eq!(mirror_target("Official Arch Linux"), MirrorTarget::Arch);
    assert_eq!(mirror_target("cachyos-v3"), MirrorTarget::CachyOS);
    assert_eq!(mirror_target("Chaotic-AUR"), MirrorTarget::Chaotic);
    assert_eq!(mirror_target("endeavouros"), MirrorTarget::Arch);
}

use monarch_store::system::{compute_cache_stats, get_mirror_rank_tool, is_one_click_enabled, kernel_modules_dir};

#[test]
fn cache_stats_count_package_files() {
    let files = vec![
        ("zst".to_string(), 100u64),
        ("sig".to_string(), 5),
        ("part".to_string(), 1000),
        ("".to_string(), 7),
        ("xz".to_string(), 20),
    ];
    let st = compute_cache_stats(&files);
    assert_eq!(st.total_size_bytes, 125);
    assert_eq!(st.package_count, 3);
    let st = compute_cache_stats(&Vec::new());
    assert_eq!(st.total_size_bytes, 0);
    assert_eq!(st.package_count, 0);
}

#[test]
fn mirror_rank_tool_preference() {
    assert_eq!(get_mirror_rank_tool(true, true, true), Some("pacman-mirrors".to_string()));
    assert_eq!(get_mirror_rank_tool(false, true, true), Some("reflector".to_string()));
    assert_eq!(get_mirror_rank_tool(false, false, true), Some("rate-mirrors".to_string()));
    assert_eq!(get_mirror_rank_tool(false, false, false), None);
}

#[test]
fn one_click_follows_policy_on_disk() {
    let yes = "<action id=\"x\"><defaults><allow_active>yes</allow_active></defaults></action>";
    assert_eq!(is_one_click_enabled(false, Some(yes)), (true, true));
    assert_eq!(is_one_click_enabled(true, Some(yes)), (true, false));
    assert_eq!(is_one_click_enabled(true, None), (true, false));
    assert_eq!(is_one_click_enabled(false, Some("<allow_active>auth_admin</allow_active>")), (false, false));
}

#[test]
fn kernel_modules_directory() {
    assert_eq!(kernel_modules_dir(" 6.7.1-arch1-1\n"), Some("/usr/lib/modules/6.7.1-arch1-1".to_string()));
    assert_eq!(kernel_modules_dir("  "), None);
}

#[test]
fn setting_a_policy_twice_changes_nothing_more() {
    let policy = "<policyconfig><action id=\"a\"><defaults><allow_active>auth_admin</allow_active></defaults></action><action id=\"b\"><defaults><allow_active>no</allow_active></defaults></action></policyconfig>";
    for (id, v) in [("a", "yes"), ("b", "auth_admin_keep"), ("c", "yes")] {
        let once = set_policy_allow_active(policy, id, v);
        assert_eq!(set_policy_allow_active(&once, id, v), once);
    }
}
