//! Search relevance: how well a package matches a query.
//!
//! Open-core and proprietary-fork siblings (Chrome and Chromium, VS Code and VSCodium,
//! Plex and Kodi, ...) form groups; when the query names any member or trigger term of a
//! group, every package of the group is boosted so that the siblings show together.
use vstd::prelude::*;
use crate::models::Package;
use crate::text::{
    chars_of, contains, contains_chars, contains_str, eq, eq_str, is_prefix, lower_chars,
    lowercase, matches_at, occurs_at, string_views,
};

verus! {

/// The score given to every member of a sibling group that the query names.
pub const SIBLING_BOOST_SCORE: u32 = 85;

/// The characters of a list of string literals.
pub open spec fn strs(v: Seq<&str>) -> Seq<Seq<char>> {
    v.map_values(|s: &str| s@)
}

/// A sibling group applies to a package named `name` (display name `display`) under the
/// query `q` when the package is in the group and the query equals, contains or is
/// contained in one of the group's terms.
pub open spec fn group_matches(names: Seq<Seq<char>>, terms: Seq<Seq<char>>, name: Seq<char>, display: Seq<char>, q: Seq<char>) -> bool {
    (exists|i: int| 0 <= i < names.len() && (names[i] == name || names[i] == display)) && (exists|
        j: int,
    |
        0 <= j < terms.len() && (q == terms[j] || contains(q, terms[j]) || contains(terms[j], q)))
}

/// Whether a group of the sibling table, part 1, applies.
pub open spec fn sibling_part_0(name: Seq<char>, display: Seq<char>, q: Seq<char>) -> bool {
    group_matches(strs(seq!["google-chrome", "chromium", "google chrome"]), strs(seq!["chrome", "chromium"]), name, display, q)
        || group_matches(strs(seq!["microsoft-edge", "microsoft-edge-dev", "edge-bin", "microsoft edge"]), strs(seq!["edge", "chromium"]), name, display, q)
        || group_matches(strs(seq!["vivaldi", "vivaldi-bin", "vivaldi-stable"]), strs(seq!["vivaldi", "chromium"]), name, display, q)
        || group_matches(strs(seq!["opera", "opera-ffmpeg-codecs", "opera-developer"]), strs(seq!["opera", "chromium"]), name, display, q)
        || group_matches(strs(seq!["brave", "brave-bin", "brave-browser"]), strs(seq!["brave", "chromium"]), name, display, q)
        || group_matches(strs(seq!["yandex-browser", "yandex-browser-beta", "chromium"]), strs(seq!["yandex", "chromium"]), name, display, q)
        || group_matches(strs(seq!["firefox", "librewolf", "firefox-esr", "firefox-developer-edition"]), strs(seq!["firefox", "librewolf"]), name, display, q)
        || group_matches(strs(seq!["tor-browser", "tor-browser-launcher"]), strs(seq!["tor", "tor browser"]), name, display, q)
        || group_matches(strs(seq!["code", "visual-studio-code-bin", "vscodium", "vscodium-bin", "visual studio code"]), strs(seq!["code", "vscode", "vscodium", "visual studio code"]), name, display, q)
        || group_matches(strs(seq!["pycharm-professional", "pycharm-community-edition", "pycharm"]), strs(seq!["pycharm", "py charm"]), name, display, q)
        || group_matches(strs(seq!["intellij-idea-ultimate-edition", "intellij-idea-community-edition", "intellij"]), strs(seq!["intellij", "idea", "jetbrains"]), name, display, q)
        || group_matches(strs(seq!["android-studio", "android-sdk", "android-tools"]), strs(seq!["android studio", "android sdk"]), name, display, q)
}

/// Whether a group of the sibling table, part 2, applies.
pub open spec fn sibling_part_1(name: Seq<char>, display: Seq<char>, q: Seq<char>) -> bool {
    group_matches(strs(seq!["jdk", "jdk-openjdk", "jdk8-openjdk", "jdk11-openjdk", "jdk17-openjdk", "openjdk"]), strs(seq!["jdk", "openjdk", "java"]), name, display, q)
        || group_matches(strs(seq!["qt6-base", "qt5-base", "qt-creator", "qt6-creator"]), strs(seq!["qt", "qt creator"]), name, display, q)
        || group_matches(strs(seq!["sublime-text", "sublime-text-4", "sublime-merge", "atom", "pulsar-editor-bin", "pulsar", "lime"]), strs(seq!["sublime", "atom", "pulsar", "lime", "sublime text"]), name, display, q)
        || group_matches(strs(seq!["cursor", "cursor-bin", "cursor-appimage"]), strs(["cursor"]@), name, display, q)
        || group_matches(strs(seq!["gitlab", "gitlab-ce", "gitlab-ee"]), strs(["gitlab"]@), name, display, q)
        || group_matches(strs(seq!["docker", "docker-desktop", "podman", "docker-engine"]), strs(seq!["docker", "podman", "container"]), name, display, q)
        || group_matches(strs(seq!["nginx", "nginx-mainline", "nginx-plus"]), strs(["nginx"]@), name, display, q)
        || group_matches(strs(seq!["redis", "redis-server", "valkey", "valkey-bin"]), strs(seq!["redis", "valkey"]), name, display, q)
        || group_matches(strs(seq!["elasticsearch", "opensearch", "opensearch-dashboards"]), strs(seq!["elasticsearch", "opensearch", "elastic search"]), name, display, q)
        || group_matches(strs(seq!["terraform", "opentofu", "tofu", "terraform-bin"]), strs(seq!["terraform", "opentofu", "tofu"]), name, display, q)
        || group_matches(strs(seq!["mysql", "mariadb", "mysql57", "mysql80"]), strs(seq!["mysql", "mariadb"]), name, display, q)
        || group_matches(strs(seq!["influxdb", "influxdb2", "influxdb-bin"]), strs(["influxdb"]@), name, display, q)
}

/// Whether a group of the sibling table, part 3, applies.
pub open spec fn sibling_part_2(name: Seq<char>, display: Seq<char>, q: Seq<char>) -> bool {
    group_matches(strs(seq!["grafana", "grafana-bin"]), strs(["grafana"]@), name, display, q)
        || group_matches(strs(seq!["sonarqube", "sonar-scanner"]), strs(seq!["sonarqube", "sonar"]), name, display, q)
        || group_matches(strs(seq!["ansible", "ansible-core", "ansible-automation-platform"]), strs(["ansible"]@), name, display, q)
        || group_matches(strs(seq!["puppet", "puppet-agent", "puppet-enterprise"]), strs(["puppet"]@), name, display, q)
        || group_matches(strs(seq!["chef", "chef-workstation", "chef-infra"]), strs(["chef"]@), name, display, q)
        || group_matches(strs(seq!["metasploit", "metasploit-framework"]), strs(["metasploit"]@), name, display, q)
        || group_matches(strs(seq!["mattermost", "mattermost-desktop", "mattermost-server"]), strs(["mattermost"]@), name, display, q)
        || group_matches(strs(seq!["rocket-chat", "rocket.chat", "rocketchat"]), strs(seq!["rocket", "rocket.chat"]), name, display, q)
        || group_matches(strs(seq!["zulip", "zulip-desktop", "zulip-server"]), strs(["zulip"]@), name, display, q)
        || group_matches(strs(seq!["telegram-desktop", "telegram"]), strs(["telegram"]@), name, display, q)
        || group_matches(strs(seq!["discord", "discord-canary", "discord-ptb", "webcord", "webcord-bin", "discord_arch_electron"]), strs(seq!["discord", "webcord"]), name, display, q)
        || group_matches(strs(seq!["slack", "slack-desktop", "mattermost"]), strs(seq!["slack", "mattermost"]), name, display, q)
}

/// Whether a group of the sibling table, part 4, applies.
pub open spec fn sibling_part_3(name: Seq<char>, display: Seq<char>, q: Seq<char>) -> bool {
    group_matches(strs(seq!["element-desktop", "element-web", "riot-desktop"]), strs(seq!["element", "matrix", "riot"]), name, display, q)
        || group_matches(strs(seq!["signal-desktop", "signal-desktop-beta"]), strs(["signal"]@), name, display, q)
        || group_matches(strs(seq!["zoom", "zoom-wayland"]), strs(["zoom"]@), name, display, q)
        || group_matches(strs(seq!["teams", "teams-for-linux"]), strs(seq!["teams", "microsoft teams"]), name, display, q)
        || group_matches(strs(seq!["thunderbird", "betterbird"]), strs(seq!["thunderbird", "betterbird", "mail"]), name, display, q)
        || group_matches(strs(seq!["plex", "plex-media-server", "plexamp"]), strs(["plex"]@), name, display, q)
        || group_matches(strs(seq!["kodi", "kodi-git", "xbmc"]), strs(seq!["kodi", "xbmc", "plex"]), name, display, q)
        || group_matches(strs(seq!["emby", "emby-server", "emby-server-bin"]), strs(["emby"]@), name, display, q)
        || group_matches(strs(seq!["jellyfin", "jellyfin-server", "jellyfin-media-player"]), strs(seq!["jellyfin", "emby"]), name, display, q)
        || group_matches(strs(seq!["spotify", "spotify-adblock", "spotifywm", "spotify-launcher"]), strs(["spotify"]@), name, display, q)
        || group_matches(strs(seq!["vlc", "mpv", "mpv-mpris"]), strs(seq!["vlc", "mpv", "video player", "media player"]), name, display, q)
        || group_matches(strs(seq!["obs-studio", "obs-studio-git"]), strs(seq!["obs", "streaming"]), name, display, q)
}

/// Whether a group of the sibling table, part 5, applies.
pub open spec fn sibling_part_4(name: Seq<char>, display: Seq<char>, q: Seq<char>) -> bool {
    group_matches(strs(seq!["davinci-resolve", "davinci-resolve-studio"]), strs(seq!["davinci", "resolve"]), name, display, q)
        || group_matches(strs(seq!["lightworks", "lightworks-bin"]), strs(["lightworks"]@), name, display, q)
        || group_matches(strs(seq!["kdenlive", "kdenlive-git", "shotcut"]), strs(seq!["kdenlive", "shotcut", "video editor"]), name, display, q)
        || group_matches(strs(seq!["audacity", "tenacity", "audacity-git"]), strs(seq!["audacity", "tenacity", "audio editor"]), name, display, q)
        || group_matches(strs(seq!["handbrake", "handbrake-cli"]), strs(seq!["handbrake", "video encoder"]), name, display, q)
        || group_matches(strs(seq!["gimp", "gimp-git", "krita"]), strs(seq!["gimp", "krita", "image editor"]), name, display, q)
        || group_matches(strs(seq!["inkscape", "inkscape-git"]), strs(seq!["inkscape", "vector"]), name, display, q)
        || group_matches(strs(seq!["blender", "blender-docs"]), strs(seq!["blender", "3d"]), name, display, q)
        || group_matches(strs(seq!["ardour", "reaper", "reaper-bin"]), strs(seq!["ardour", "reaper", "daw", "audio"]), name, display, q)
        || group_matches(strs(seq!["onlyoffice", "onlyoffice-bin", "onlyoffice-desktopeditors", "onlyoffice-documentserver"]), strs(seq!["onlyoffice", "only office"]), name, display, q)
        || group_matches(strs(seq!["libreoffice-fresh", "libreoffice-still", "libreoffice", "openoffice", "openoffice-bin"]), strs(seq!["libreoffice", "openoffice", "libre office"]), name, display, q)
        || group_matches(strs(seq!["wps-office", "wps-office-bin"]), strs(seq!["wps", "wps office"]), name, display, q)
}

/// Whether a group of the sibling table, part 6, applies.
pub open spec fn sibling_part_5(name: Seq<char>, display: Seq<char>, q: Seq<char>) -> bool {
    group_matches(strs(seq!["zimbra", "zimbra-desktop"]), strs(["zimbra"]@), name, display, q)
        || group_matches(strs(seq!["odoo", "odoo-community", "odoo-enterprise"]), strs(seq!["odoo", "erp"]), name, display, q)
        || group_matches(strs(seq!["magento", "magento-open-source"]), strs(["magento"]@), name, display, q)
        || group_matches(strs(seq!["sugarcrm", "suitecrm"]), strs(seq!["sugarcrm", "suitecrm", "crm"]), name, display, q)
        || group_matches(strs(seq!["bitwarden", "bitwarden-cli", "vaultwarden"]), strs(seq!["bitwarden", "vaultwarden", "password"]), name, display, q)
        || group_matches(strs(seq!["standard-notes", "standard-notes-bin"]), strs(seq!["standard notes", "standardnotes"]), name, display, q)
        || group_matches(strs(seq!["evince", "okular", "atril", "xreader"]), strs(seq!["pdf", "evince", "okular", "document viewer", "pdf viewer"]), name, display, q)
        || group_matches(strs(seq!["zotero", "zotero-bin"]), strs(seq!["zotero", "reference"]), name, display, q)
        || group_matches(strs(seq!["notion", "notion-app", "obsidian", "obsidian-bin"]), strs(seq!["notion", "obsidian", "notes"]), name, display, q)
        || group_matches(strs(seq!["virtualbox", "virtualbox-host-dkms", "virtualbox-ext-oracle", "virt-manager"]), strs(seq!["virtualbox", "virtual machine", "virt"]), name, display, q)
        || group_matches(strs(seq!["pfsense", "opnsense", "opnsense-update"]), strs(seq!["pfsense", "opnsense", "firewall"]), name, display, q)
        || group_matches(strs(seq!["vmware-workstation", "vmware-player"]), strs(["vmware"]@), name, display, q)
}

/// Whether a group of the sibling table, part 7, applies.
pub open spec fn sibling_part_6(name: Seq<char>, display: Seq<char>, q: Seq<char>) -> bool {
    group_matches(strs(seq!["teamviewer", "anydesk", "rustdesk", "rustdesk-bin"]), strs(seq!["teamviewer", "anydesk", "rustdesk", "remote"]), name, display, q)
        || group_matches(strs(seq!["veracrypt", "truecrypt", "cryptsetup"]), strs(seq!["veracrypt", "truecrypt", "encryption"]), name, display, q)
        || group_matches(strs(seq!["keepassxc", "keepass", "keepassxc-git"]), strs(seq!["keepass", "keepassxc", "password"]), name, display, q)
        || group_matches(strs(seq!["steam", "steam-native-runtime", "steam-manjaro"]), strs(["steam"]@), name, display, q)
        || group_matches(strs(seq!["lutris", "lutris-ge"]), strs(seq!["lutris", "gaming"]), name, display, q)
        || group_matches(strs(seq!["heroic", "heroic-games-launcher-bin"]), strs(seq!["heroic", "epic", "games launcher"]), name, display, q)
        || group_matches(strs(seq!["minecraft", "minecraft-launcher", "prism-launcher", "poly mc"]), strs(seq!["minecraft", "prism", "polymc"]), name, display, q)
        || group_matches(strs(seq!["gitkraken", "gitg", "sourcetree", "git-cola", "lazygit"]), strs(seq!["gitkraken", "git gui", "sourcetree", "lazygit"]), name, display, q)
        || group_matches(strs(seq!["postman", "postman-bin", "insomnia"]), strs(seq!["postman", "insomnia", "api"]), name, display, q)
        || group_matches(strs(seq!["qbittorrent", "transmission-gtk", "deluge", "transmission"]), strs(seq!["qbittorrent", "transmission", "deluge", "torrent"]), name, display, q)
        || group_matches(strs(seq!["filezilla", "filezilla-gtk3"]), strs(seq!["filezilla", "ftp"]), name, display, q)
}

/// Whether any sibling group applies.
pub open spec fn sibling_applies(name: Seq<char>, display: Seq<char>, q: Seq<char>) -> bool {
    sibling_part_0(name, display, q) || sibling_part_1(name, display, q) || sibling_part_2(name, display, q) || sibling_part_3(name, display, q) || sibling_part_4(name, display, q) || sibling_part_5(name, display, q) || sibling_part_6(name, display, q)
}

fn group_applies(names: &[&str], terms: &[&str], name: &[char], display: &[char], q: &[char]) -> (r: bool)
    ensures
        r == group_matches(strs(names@), strs(terms@), name@, display@, q@),
{
    let mut in_group = false;
    let mut i: usize = 0;
    while i < names.len()
        invariant
            0 <= i <= names@.len(),
            in_group == exists|k: int|
                0 <= k < i && (strs(names@)[k] == name@ || strs(names@)[k] == display@),
        decreases names@.len() - i,
    {
        let n = chars_of(names[i]);
        assert(strs(names@)[i as int] == n@);
        if eq(n.as_slice(), name) || eq(n.as_slice(), display) {
            in_group = true;
        }
        i += 1;
    }
    if !in_group {
        return false;
    }
    let mut j: usize = 0;
    while j < terms.len()
        invariant
            0 <= j <= terms@.len(),
            exists|k: int|
                0 <= k < names@.len() && (strs(names@)[k] == name@ || strs(names@)[k] == display@),
            forall|k: int|
                0 <= k < j ==> !(q@ == strs(terms@)[k] || contains(q@, strs(terms@)[k]) || contains(
                    strs(terms@)[k],
                    q@,
                )),
        decreases terms@.len() - j,
    {
        let t = chars_of(terms[j]);
        assert(strs(terms@)[j as int] == t@);
        if eq(q, t.as_slice()) || contains_chars(q, t.as_slice()) || contains_chars(t.as_slice(), q) {
            assert(q@ == strs(terms@)[j as int] || contains(q@, strs(terms@)[j as int]) || contains(
                strs(terms@)[j as int],
                q@,
            ));
            return true;
        }
        j += 1;
    }
    false
}

fn sibling_part_0_applies(name: &[char], display: &[char], q: &[char]) -> (r: bool)
    ensures
        r == sibling_part_0(name@, display@, q@),
{
    group_applies(&["google-chrome", "chromium", "google chrome"], &["chrome", "chromium"], name, display, q)
        || group_applies(&["microsoft-edge", "microsoft-edge-dev", "edge-bin", "microsoft edge"], &["edge", "chromium"], name, display, q)
        || group_applies(&["vivaldi", "vivaldi-bin", "vivaldi-stable"], &["vivaldi", "chromium"], name, display, q)
        || group_applies(&["opera", "opera-ffmpeg-codecs", "opera-developer"], &["opera", "chromium"], name, display, q)
        || group_applies(&["brave", "brave-bin", "brave-browser"], &["brave", "chromium"], name, display, q)
        || group_applies(&["yandex-browser", "yandex-browser-beta", "chromium"], &["yandex", "chromium"], name, display, q)
        || group_applies(&["firefox", "librewolf", "firefox-esr", "firefox-developer-edition"], &["firefox", "librewolf"], name, display, q)
        || group_applies(&["tor-browser", "tor-browser-launcher"], &["tor", "tor browser"], name, display, q)
        || group_applies(&["code", "visual-studio-code-bin", "vscodium", "vscodium-bin", "visual studio code"], &["code", "vscode", "vscodium", "visual studio code"], name, display, q)
        || group_applies(&["pycharm-professional", "pycharm-community-edition", "pycharm"], &["pycharm", "py charm"], name, display, q)
        || group_applies(&["intellij-idea-ultimate-edition", "intellij-idea-community-edition", "intellij"], &["intellij", "idea", "jetbrains"], name, display, q)
        || group_applies(&["android-studio", "android-sdk", "android-tools"], &["android studio", "android sdk"], name, display, q)
}

fn sibling_part_1_applies(name: &[char], display: &[char], q: &[char]) -> (r: bool)
    ensures
        r == sibling_part_1(name@, display@, q@),
{
    group_applies(&["jdk", "jdk-openjdk", "jdk8-openjdk", "jdk11-openjdk", "jdk17-openjdk", "openjdk"], &["jdk", "openjdk", "java"], name, display, q)
        || group_applies(&["qt6-base", "qt5-base", "qt-creator", "qt6-creator"], &["qt", "qt creator"], name, display, q)
        || group_applies(&["sublime-text", "sublime-text-4", "sublime-merge", "atom", "pulsar-editor-bin", "pulsar", "lime"], &["sublime", "atom", "pulsar", "lime", "sublime text"], name, display, q)
        || group_applies(&["cursor", "cursor-bin", "cursor-appimage"], &["cursor"], name, display, q)
        || group_applies(&["gitlab", "gitlab-ce", "gitlab-ee"], &["gitlab"], name, display, q)
        || group_applies(&["docker", "docker-desktop", "podman", "docker-engine"], &["docker", "podman", "container"], name, display, q)
        || group_applies(&["nginx", "nginx-mainline", "nginx-plus"], &["nginx"], name, display, q)
        || group_applies(&["redis", "redis-server", "valkey", "valkey-bin"], &["redis", "valkey"], name, display, q)
        || group_applies(&["elasticsearch", "opensearch", "opensearch-dashboards"], &["elasticsearch", "opensearch", "elastic search"], name, display, q)
        || group_applies(&["terraform", "opentofu", "tofu", "terraform-bin"], &["terraform", "opentofu", "tofu"], name, display, q)
        || group_applies(&["mysql", "mariadb", "mysql57", "mysql80"], &["mysql", "mariadb"], name, display, q)
        || group_applies(&["influxdb", "influxdb2", "influxdb-bin"], &["influxdb"], name, display, q)
}

fn sibling_part_2_applies(name: &[char], display: &[char], q: &[char]) -> (r: bool)
    ensures
        r == sibling_part_2(name@, display@, q@),
{
    group_applies(&["grafana", "grafana-bin"], &["grafana"], name, display, q)
        || group_applies(&["sonarqube", "sonar-scanner"], &["sonarqube", "sonar"], name, display, q)
        || group_applies(&["ansible", "ansible-core", "ansible-automation-platform"], &["ansible"], name, display, q)
        || group_applies(&["puppet", "puppet-agent", "puppet-enterprise"], &["puppet"], name, display, q)
        || group_applies(&["chef", "chef-workstation", "chef-infra"], &["chef"], name, display, q)
        || group_applies(&["metasploit", "metasploit-framework"], &["metasploit"], name, display, q)
        || group_applies(&["mattermost", "mattermost-desktop", "mattermost-server"], &["mattermost"], name, display, q)
        || group_applies(&["rocket-chat", "rocket.chat", "rocketchat"], &["rocket", "rocket.chat"], name, display, q)
        || group_applies(&["zulip", "zulip-desktop", "zulip-server"], &["zulip"], name, display, q)
        || group_applies(&["telegram-desktop", "telegram"], &["telegram"], name, display, q)
        || group_applies(&["discord", "discord-canary", "discord-ptb", "webcord", "webcord-bin", "discord_arch_electron"], &["discord", "webcord"], name, display, q)
        || group_applies(&["slack", "slack-desktop", "mattermost"], &["slack", "mattermost"], name, display, q)
}

fn sibling_part_3_applies(name: &[char], display: &[char], q: &[char]) -> (r: bool)
    ensures
        r == sibling_part_3(name@, display@, q@),
{
    group_applies(&["element-desktop", "element-web", "riot-desktop"], &["element", "matrix", "riot"], name, display, q)
        || group_applies(&["signal-desktop", "signal-desktop-beta"], &["signal"], name, display, q)
        || group_applies(&["zoom", "zoom-wayland"], &["zoom"], name, display, q)
        || group_applies(&["teams", "teams-for-linux"], &["teams", "microsoft teams"], name, display, q)
        || group_applies(&["thunderbird", "betterbird"], &["thunderbird", "betterbird", "mail"], name, display, q)
        || group_applies(&["plex", "plex-media-server", "plexamp"], &["plex"], name, display, q)
        || group_applies(&["kodi", "kodi-git", "xbmc"], &["kodi", "xbmc", "plex"], name, display, q)
        || group_applies(&["emby", "emby-server", "emby-server-bin"], &["emby"], name, display, q)
        || group_applies(&["jellyfin", "jellyfin-server", "jellyfin-media-player"], &["jellyfin", "emby"], name, display, q)
        || group_applies(&["spotify", "spotify-adblock", "spotifywm", "spotify-launcher"], &["spotify"], name, display, q)
        || group_applies(&["vlc", "mpv", "mpv-mpris"], &["vlc", "mpv", "video player", "media player"], name, display, q)
        || group_applies(&["obs-studio", "obs-studio-git"], &["obs", "streaming"], name, display, q)
}

fn sibling_part_4_applies(name: &[char], display: &[char], q: &[char]) -> (r: bool)
    ensures
        r == sibling_part_4(name@, display@, q@),
{
    group_applies(&["davinci-resolve", "davinci-resolve-studio"], &["davinci", "resolve"], name, display, q)
        || group_applies(&["lightworks", "lightworks-bin"], &["lightworks"], name, display, q)
        || group_applies(&["kdenlive", "kdenlive-git", "shotcut"], &["kdenlive", "shotcut", "video editor"], name, display, q)
        || group_applies(&["audacity", "tenacity", "audacity-git"], &["audacity", "tenacity", "audio editor"], name, display, q)
        || group_applies(&["handbrake", "handbrake-cli"], &["handbrake", "video encoder"], name, display, q)
        || group_applies(&["gimp", "gimp-git", "krita"], &["gimp", "krita", "image editor"], name, display, q)
        || group_applies(&["inkscape", "inkscape-git"], &["inkscape", "vector"], name, display, q)
        || group_applies(&["blender", "blender-docs"], &["blender", "3d"], name, display, q)
        || group_applies(&["ardour", "reaper", "reaper-bin"], &["ardour", "reaper", "daw", "audio"], name, display, q)
        || group_applies(&["onlyoffice", "onlyoffice-bin", "onlyoffice-desktopeditors", "onlyoffice-documentserver"], &["onlyoffice", "only office"], name, display, q)
        || group_applies(&["libreoffice-fresh", "libreoffice-still", "libreoffice", "openoffice", "openoffice-bin"], &["libreoffice", "openoffice", "libre office"], name, display, q)
        || group_applies(&["wps-office", "wps-office-bin"], &["wps", "wps office"], name, display, q)
}

fn sibling_part_5_applies(name: &[char], display: &[char], q: &[char]) -> (r: bool)
    ensures
        r == sibling_part_5(name@, display@, q@),
{
    group_applies(&["zimbra", "zimbra-desktop"], &["zimbra"], name, display, q)
        || group_applies(&["odoo", "odoo-community", "odoo-enterprise"], &["odoo", "erp"], name, display, q)
        || group_applies(&["magento", "magento-open-source"], &["magento"], name, display, q)
        || group_applies(&["sugarcrm", "suitecrm"], &["sugarcrm", "suitecrm", "crm"], name, display, q)
        || group_applies(&["bitwarden", "bitwarden-cli", "vaultwarden"], &["bitwarden", "vaultwarden", "password"], name, display, q)
        || group_applies(&["standard-notes", "standard-notes-bin"], &["standard notes", "standardnotes"], name, display, q)
        || group_applies(&["evince", "okular", "atril", "xreader"], &["pdf", "evince", "okular", "document viewer", "pdf viewer"], name, display, q)
        || group_applies(&["zotero", "zotero-bin"], &["zotero", "reference"], name, display, q)
        || group_applies(&["notion", "notion-app", "obsidian", "obsidian-bin"], &["notion", "obsidian", "notes"], name, display, q)
        || group_applies(&["virtualbox", "virtualbox-host-dkms", "virtualbox-ext-oracle", "virt-manager"], &["virtualbox", "virtual machine", "virt"], name, display, q)
        || group_applies(&["pfsense", "opnsense", "opnsense-update"], &["pfsense", "opnsense", "firewall"], name, display, q)
        || group_applies(&["vmware-workstation", "vmware-player"], &["vmware"], name, display, q)
}

fn sibling_part_6_applies(name: &[char], display: &[char], q: &[char]) -> (r: bool)
    ensures
        r == sibling_part_6(name@, display@, q@),
{
    group_applies(&["teamviewer", "anydesk", "rustdesk", "rustdesk-bin"], &["teamviewer", "anydesk", "rustdesk", "remote"], name, display, q)
        || group_applies(&["veracrypt", "truecrypt", "cryptsetup"], &["veracrypt", "truecrypt", "encryption"], name, display, q)
        || group_applies(&["keepassxc", "keepass", "keepassxc-git"], &["keepass", "keepassxc", "password"], name, display, q)
        || group_applies(&["steam", "steam-native-runtime", "steam-manjaro"], &["steam"], name, display, q)
        || group_applies(&["lutris", "lutris-ge"], &["lutris", "gaming"], name, display, q)
        || group_applies(&["heroic", "heroic-games-launcher-bin"], &["heroic", "epic", "games launcher"], name, display, q)
        || group_applies(&["minecraft", "minecraft-launcher", "prism-launcher", "poly mc"], &["minecraft", "prism", "polymc"], name, display, q)
        || group_applies(&["gitkraken", "gitg", "sourcetree", "git-cola", "lazygit"], &["gitkraken", "git gui", "sourcetree", "lazygit"], name, display, q)
        || group_applies(&["postman", "postman-bin", "insomnia"], &["postman", "insomnia", "api"], name, display, q)
        || group_applies(&["qbittorrent", "transmission-gtk", "deluge", "transmission"], &["qbittorrent", "transmission", "deluge", "torrent"], name, display, q)
        || group_applies(&["filezilla", "filezilla-gtk3"], &["filezilla", "ftp"], name, display, q)
}

/// Whether any sibling group applies to the package and query.
pub fn sibling_boost_applies(name: &[char], display: &[char], q: &[char]) -> (r: bool)
    ensures
        r == sibling_applies(name@, display@, q@),
{
    sibling_part_0_applies(name, display, q) || sibling_part_1_applies(name, display, q) || sibling_part_2_applies(name, display, q) || sibling_part_3_applies(name, display, q) || sibling_part_4_applies(name, display, q) || sibling_part_5_applies(name, display, q) || sibling_part_6_applies(name, display, q)
}

/// The characters that separate words in package names for word matching.
pub open spec fn is_delim(c: char) -> bool {
    c == '-' || c == '_' || c == '.' || c == ' '
}

/// `q` is one of the pieces of `text` split at `-`, `_`, `.` and space: `q` holds no
/// separator and occurs in `text` between separators or the ends.
pub open spec fn is_word_of(text: Seq<char>, q: Seq<char>) -> bool {
    &&& forall|k: int| 0 <= k < q.len() ==> !is_delim(#[trigger] q[k])
    &&& exists|i: int|
        occurs_at(text, q, i) && (i == 0 || is_delim(text[i - 1])) && (i + q.len() == text.len()
            || is_delim(text[i + q.len()]))
}

/// The characters of an optional string.
pub open spec fn opt_chars(o: Option<Vec<char>>) -> Option<Seq<char>> {
    match o {
        Some(v) => Some(v@),
        None => None,
    }
}

/// An optional text, or the empty text.
pub open spec fn or_empty(o: Option<Seq<char>>) -> Seq<char> {
    match o {
        Some(s) => s,
        None => Seq::empty(),
    }
}

/// The relevance (0 to 100) of a package to the query `q` (of `q_bytes` UTF-8 bytes),
/// from its lower-cased name, display name, friendly name, app id and keywords and the
/// lower-cased popular package names:
/// 100 for an exact name or friendly-name match, 80 for a friendly name containing a
/// query of 3 bytes or more, 90 for an exact app id, 50 for a name starting with the query,
/// 20 for any other match; +10 (at most 100) for popular packages; at least the sibling
/// boost for members of a matching sibling group; at least 60 (name) or 55 (display
/// name) for a whole-word match below 90; and, without a friendly name, 95 for an exact
/// display name or at least 50 for a display name starting with the query.
pub open spec fn relevance(name: Seq<char>, display: Option<Seq<char>>, friendly: Option<Seq<char>>, app_id: Option<Seq<char>>, keywords: Seq<Seq<char>>, q: Seq<char>, q_bytes: int, popular: Seq<Seq<char>>) -> int {
    let disp = or_empty(display);
    let matches_query = contains(name, q) || contains(disp, q) || contains(or_empty(friendly), q)
        || (exists|k: int| 0 <= k < keywords.len() && contains(keywords[k], q));
    let is_popular = popular.contains(name);
    let s1: int = if name == q {
        100
    } else {
        match friendly {
            Some(f) => if f == q {
                100
            } else if contains(f, q) && q_bytes >= 3 {
                80
            } else {
                0
            },
            None => 0,
        }
    };
    let s2: int = if s1 == 0 && app_id == Some(q) {
        90
    } else {
        s1
    };
    let s3: int = if s2 == 0 && is_prefix(q, name) {
        50
    } else {
        s2
    };
    let s4: int = if s3 == 0 && matches_query {
        20
    } else {
        s3
    };
    let s5: int = if is_popular && matches_query && s4 > 0 {
        if s4 + 10 < 100 {
            s4 + 10
        } else {
            100
        }
    } else {
        s4
    };
    let s6: int = if sibling_applies(name, disp, q) && s5 < 85 {
        85
    } else {
        s5
    };
    let s7: int = if s6 < 90 {
        let a: int = if is_word_of(name, q) && s6 < 60 {
            60
        } else {
            s6
        };
        if is_word_of(disp, q) && a < 55 {
            55
        } else {
            a
        }
    } else {
        s6
    };
    if s7 < 100 && friendly is None {
        if disp == q {
            95
        } else if is_prefix(q, disp) && s7 < 50 {
            50
        } else {
            s7
        }
    } else {
        s7
    }
}

fn is_delim_char(c: char) -> (r: bool)
    ensures
        r == is_delim(c),
{
    c == '-' || c == '_' || c == '.' || c == ' '
}

/// Whether `q` is one of the pieces of `text` split at `-`, `_`, `.` and space.
pub fn has_word(text: &[char], q: &[char]) -> (r: bool)
    ensures
        r == is_word_of(text@, q@),
{
    let mut k: usize = 0;
    while k < q.len()
        invariant
            0 <= k <= q@.len(),
            forall|m: int| 0 <= m < k ==> !is_delim(#[trigger] q@[m]),
        decreases q@.len() - k,
    {
        if is_delim_char(q[k]) {
            return false;
        }
        k += 1;
    }
    if q.len() > text.len() {
        return false;
    }
    let last = text.len() - q.len();
    let mut i: usize = 0;
    while i <= last
        invariant
            last == text@.len() - q@.len(),
            forall|m: int| 0 <= m < q@.len() ==> !is_delim(#[trigger] q@[m]),
            forall|j: int|
                0 <= j < i ==> !(occurs_at(text@, q@, j) && (j == 0 || is_delim(text@[j - 1])) && (j
                    + q@.len() == text@.len() || is_delim(text@[j + q@.len()]))),
        decreases last + 1 - i,
    {
        if matches_at(text, q, i) && (i == 0 || is_delim_char(text[i - 1])) && (i == last
            || is_delim_char(text[i + q.len()])) {
            return true;
        }
        if i == last {
            assert forall|j: int| #![auto]
                !(occurs_at(text@, q@, j) && (j == 0 || is_delim(text@[j - 1])) && (j + q@.len()
                    == text@.len() || is_delim(text@[j + q@.len()]))) by {
                if 0 <= j < i {
                }
            }
            return false;
        }
        i += 1;
    }
    false
}

fn opt_eq(o: &Option<Vec<char>>, q: &[char]) -> (r: bool)
    ensures
        r == (opt_chars(*o) == Some(q@)),
{
    match o {
        Some(v) => eq(v.as_slice(), q),
        None => false,
    }
}

fn opt_contains(o: &Option<Vec<char>>, q: &[char]) -> (r: bool)
    ensures
        r == contains(or_empty(opt_chars(*o)), q@),
{
    match o {
        Some(v) => contains_chars(v.as_slice(), q),
        None => {
            let e: Vec<char> = Vec::new();
            assert(e@ == Seq::<char>::empty());
            contains_chars(e.as_slice(), q)
        },
    }
}

fn any_contains(ks: &Vec<Vec<char>>, q: &[char]) -> (r: bool)
    ensures
        r == exists|k: int| 0 <= k < ks@.len() && contains(#[trigger] ks@[k]@, q@),
{
    let mut i: usize = 0;
    while i < ks.len()
        invariant
            0 <= i <= ks@.len(),
            forall|k: int| 0 <= k < i ==> !contains(#[trigger] ks@[k]@, q@),
        decreases ks@.len() - i,
    {
        if contains_chars(ks[i].as_slice(), q) {
            return true;
        }
        i += 1;
    }
    false
}

/// The views of character vectors.
pub open spec fn vec_views(v: Seq<Vec<char>>) -> Seq<Seq<char>> {
    v.map_values(|w: Vec<char>| w@)
}

/// The relevance of a package given its lower-cased name, display name, friendly name,
/// app id and keywords, the query and its length in bytes, and the lower-cased names of
/// popular packages.
pub fn relevance_of_lowercased(name: &[char], display: &Option<Vec<char>>, friendly: &Option<Vec<char>>, app_id: &Option<Vec<char>>, keywords: &Vec<Vec<char>>, q: &[char], q_bytes: usize, popular: &Vec<Vec<char>>) -> (r: u32)
    ensures
        r as int == relevance(
            name@,
            opt_chars(*display),
            opt_chars(*friendly),
            opt_chars(*app_id),
            vec_views(keywords@),
            q@,
            q_bytes as int,
            vec_views(popular@),
        ),
{
    let empty: Vec<char> = Vec::new();
    let disp: &[char] = match display {
        Some(d) => d.as_slice(),
        None => empty.as_slice(),
    };
    assert(disp@ == or_empty(opt_chars(*display)));
    let kw_match = any_contains(keywords, q);
    assert(kw_match == (exists|k: int|
        0 <= k < vec_views(keywords@).len() && contains(vec_views(keywords@)[k], q@))) by {
        if kw_match {
            let k = choose|k: int| 0 <= k < keywords@.len() && contains(#[trigger] keywords@[k]@, q@);
            assert(vec_views(keywords@)[k] == keywords@[k]@);
        } else {
            assert forall|k: int| 0 <= k < vec_views(keywords@).len() implies !contains(
                vec_views(keywords@)[k],
                q@,
            ) by {
                assert(vec_views(keywords@)[k] == keywords@[k]@);
            }
        }
    }
    let matches_query = contains_chars(name, q) || contains_chars(disp, q) || opt_contains(
        friendly,
        q,
    ) || kw_match;
    let mut is_popular = false;
    let mut i: usize = 0;
    while i < popular.len()
        invariant
            0 <= i <= popular@.len(),
            is_popular == exists|k: int| 0 <= k < i && vec_views(popular@)[k] == name@,
        decreases popular@.len() - i,
    {
        assert(vec_views(popular@)[i as int] == popular@[i as int]@);
        if eq(popular[i].as_slice(), name) {
            is_popular = true;
        }
        i += 1;
    }
    let mut score: u32 = 0;
    if eq(name, q) {
        score = 100;
    } else {
        match friendly {
            Some(f) => {
                if eq(f.as_slice(), q) {
                    score = 100;
                } else if contains_chars(f.as_slice(), q) && q_bytes >= 3 {
                    score = 80;
                }
            },
            None => {},
        }
    }
    if score == 0 && opt_eq(app_id, q) {
        score = 90;
    }
    if score == 0 && matches_at(name, q, 0) {
        score = 50;
    }
    if score == 0 && matches_query {
        score = 20;
    }
    if is_popular && matches_query && score > 0 {
        score = if score + 10 < 100 {
            score + 10
        } else {
            100
        };
    }
    if sibling_boost_applies(name, disp, q) && score < SIBLING_BOOST_SCORE {
        score = SIBLING_BOOST_SCORE;
    }
    if score < 90 {
        if has_word(name, q) && score < 60 {
            score = 60;
        }
        if has_word(disp, q) && score < 55 {
            score = 55;
        }
    }
    match friendly {
        Some(_) => {},
        None => {
            if score < 100 {
                if eq(disp, q) {
                    score = 95;
                } else if matches_at(disp, q, 0) && score < 50 {
                    score = 50;
                }
            }
        },
    }
    score
}

/// The lower-cased form of an optional string.
pub open spec fn opt_lower(o: Option<String>) -> Option<Seq<char>> {
    match o {
        Some(s) => Some(lowercase(s@)),
        None => None,
    }
}

/// The lower-cased keywords of a package; none when it has no keyword list.
pub open spec fn lowered_keywords(k: Option<Vec<String>>) -> Seq<Seq<char>> {
    match k {
        Some(v) => v@.map_values(|s: String| lowercase(s@)),
        None => Seq::empty(),
    }
}

fn opt_lower_chars(o: &Option<String>) -> (r: Option<Vec<char>>)
    ensures
        opt_chars(r) == opt_lower(*o),
{
    match o {
        Some(s) => Some(lower_chars(s.as_str())),
        None => None,
    }
}

fn lower_all(k: &Option<Vec<String>>) -> (r: Vec<Vec<char>>)
    ensures
        vec_views(r@) == lowered_keywords(*k),
{
    let mut out: Vec<Vec<char>> = Vec::new();
    match k {
        Some(v) => {
            let mut i: usize = 0;
            while i < v.len()
                invariant
                    0 <= i <= v@.len(),
                    vec_views(out@) == v@.take(i as int).map_values(|s: String| lowercase(s@)),
                decreases v@.len() - i,
            {
                let l = lower_chars(v[i].as_str());
                out.push(l);
                assert(v@.take(i + 1).map_values(|s: String| lowercase(s@)) == v@.take(
                    i as int,
                ).map_values(|s: String| lowercase(s@)).push(lowercase(v@[i as int]@)));
                i += 1;
            }
            assert(v@.take(v@.len() as int) == v@);
        },
        None => {},
    }
    out
}

fn chars_all(v: &Vec<String>) -> (r: Vec<Vec<char>>)
    ensures
        vec_views(r@) == string_views(v@),
{
    let mut out: Vec<Vec<char>> = Vec::new();
    let mut i: usize = 0;
    while i < v.len()
        invariant
            0 <= i <= v@.len(),
            vec_views(out@) == string_views(v@.take(i as int)),
        decreases v@.len() - i,
    {
        out.push(chars_of(v[i].as_str()));
        assert(string_views(v@.take(i + 1)) == string_views(v@.take(i as int)).push(v@[i as int]@));
        i += 1;
    }
    assert(v@.take(v@.len() as int) == v@);
    out
}

/// The relevance (0 to 100) of `pkg` to the lower-cased query `query`; `friendly_name` is
/// the package's friendly name from the AppStream metadata, if any, and `popular_apps`
/// the lower-cased names of popular packages.
pub fn calculate_relevance(pkg: &Package, query: &str, friendly_name: Option<&str>, popular_apps: &Vec<String>) -> (r: u32)
    ensures
        r as int == relevance(
            lowercase(pkg.name@),
            opt_lower(pkg.display_name),
            match friendly_name {
                Some(f) => Some(lowercase(f@)),
                None => None,
            },
            opt_lower(pkg.app_id),
            lowered_keywords(pkg.keywords),
            query@,
            query.len() as int,
            string_views(popular_apps@),
        ),
{
    let name = lower_chars(pkg.name.as_str());
    let display = opt_lower_chars(&pkg.display_name);
    let friendly = match friendly_name {
        Some(f) => Some(lower_chars(f)),
        None => None,
    };
    let app_id = opt_lower_chars(&pkg.app_id);
    let keywords = lower_all(&pkg.keywords);
    let q = chars_of(query);
    let popular = chars_all(popular_apps);
    relevance_of_lowercased(
        name.as_slice(),
        &display,
        &friendly,
        &app_id,
        &keywords,
        q.as_slice(),
        query.len(),
        &popular,
    )
}

/// A relevance score never exceeds 100.
pub proof fn law_relevance_at_most_100(name: Seq<char>, display: Option<Seq<char>>, friendly: Option<Seq<char>>, app_id: Option<Seq<char>>, keywords: Seq<Seq<char>>, q: Seq<char>, q_bytes: int, popular: Seq<Seq<char>>)
    ensures
        0 <= relevance(name, display, friendly, app_id, keywords, q, q_bytes, popular) <= 100,
{
}

/// A package whose (lower-cased) name is exactly the query scores the full 100.
pub proof fn law_exact_name_scores_100(name: Seq<char>, display: Option<Seq<char>>, friendly: Option<Seq<char>>, app_id: Option<Seq<char>>, keywords: Seq<Seq<char>>, q: Seq<char>, q_bytes: int, popular: Seq<Seq<char>>)
    requires
        name == q,
    ensures
        relevance(name, display, friendly, app_id, keywords, q, q_bytes, popular) == 100,
{
}

/// Members of a sibling group named by the query score at least the sibling boost.
pub proof fn law_siblings_score_at_least_boost(name: Seq<char>, display: Option<Seq<char>>, friendly: Option<Seq<char>>, app_id: Option<Seq<char>>, keywords: Seq<Seq<char>>, q: Seq<char>, q_bytes: int, popular: Seq<Seq<char>>)
    requires
        sibling_applies(name, or_empty(display), q),
    ensures
        relevance(name, display, friendly, app_id, keywords, q, q_bytes, popular) >= 85,
{
}

/// A name that starts with the query scores at least 50, whatever else holds.
pub proof fn law_prefix_scores_at_least_50(name: Seq<char>, display: Option<Seq<char>>, friendly: Option<Seq<char>>, app_id: Option<Seq<char>>, keywords: Seq<Seq<char>>, q: Seq<char>, q_bytes: int, popular: Seq<Seq<char>>)
    requires
        is_prefix(q, name),
    ensures
        relevance(name, display, friendly, app_id, keywords, q, q_bytes, popular) >= 50,
{
}

/// With nothing else to go on (no friendly name, display name, app-id match, popularity,
/// sibling group or whole-word match), a name that starts with the query but is not the
/// query scores exactly 50, and a name that only contains it further on scores exactly
/// 20: a prefix ranks above a mere substring.
pub proof fn law_plain_prefix_and_substring_scores(name: Seq<char>, keywords: Seq<Seq<char>>, q: Seq<char>, q_bytes: int, popular: Seq<Seq<char>>)
    requires
        q.len() > 0,
        name != q,
        contains(name, q),
        !popular.contains(name),
        !sibling_applies(name, Seq::empty(), q),
        !is_word_of(name, q),
    ensures
        is_prefix(q, name) ==> relevance(name, None, None, None, keywords, q, q_bytes, popular) == 50,
        !is_prefix(q, name) ==> relevance(name, None, None, None, keywords, q, q_bytes, popular) == 20,
{
    assert(!is_prefix(q, Seq::<char>::empty()));
    assert(!is_word_of(Seq::<char>::empty(), q));
    assert(Seq::<char>::empty() != q);
}

/// A popular package gains ten points: with nothing else to go on, a popular name that
/// starts with the query scores 60 and one that only contains it scores 30.
pub proof fn law_popular_packages_gain_ten(name: Seq<char>, keywords: Seq<Seq<char>>, q: Seq<char>, q_bytes: int, popular: Seq<Seq<char>>)
    requires
        q.len() > 0,
        name != q,
        contains(name, q),
        popular.contains(name),
        !sibling_applies(name, Seq::empty(), q),
        !is_word_of(name, q),
    ensures
        is_prefix(q, name) ==> relevance(name, None, None, None, keywords, q, q_bytes, popular) == 60,
        !is_prefix(q, name) ==> relevance(name, None, None, None, keywords, q, q_bytes, popular) == 30,
{
    assert(!is_prefix(q, Seq::<char>::empty()));
    assert(!is_word_of(Seq::<char>::empty(), q));
    assert(Seq::<char>::empty() != q);
}

/// A friendly name equal to the query scores the full 100; one that contains a query of
/// three bytes or more scores at least 80; an app id equal to the query, without a
/// friendly name, scores at least 90.
pub proof fn law_friendly_and_app_id_matches(name: Seq<char>, display: Option<Seq<char>>, friendly: Option<Seq<char>>, app_id: Option<Seq<char>>, keywords: Seq<Seq<char>>, q: Seq<char>, q_bytes: int, popular: Seq<Seq<char>>)
    ensures
        friendly == Some(q) ==> relevance(name, display, friendly, app_id, keywords, q, q_bytes, popular) == 100,
        friendly matches Some(f) && contains(f, q) && q_bytes >= 3 ==> relevance(name, display, friendly, app_id, keywords, q, q_bytes, popular) >= 80,
        friendly is None && app_id == Some(q) ==> relevance(name, display, friendly, app_id, keywords, q, q_bytes, popular) >= 90,
{
}

/// Without a friendly name, a display name equal to the query (and a name that is not
/// the query, no app id) scores 95.
pub proof fn law_exact_display_name_scores_95(name: Seq<char>, keywords: Seq<Seq<char>>, q: Seq<char>, q_bytes: int, popular: Seq<Seq<char>>)
    requires
        name != q,
    ensures
        relevance(name, Some(q), None, None, keywords, q, q_bytes, popular) == 95,
{
}

/// A name of which the query is a whole word (split at `-`, `_`, `.` and space) scores 60
/// when nothing else lifts it: no friendly name, display name, app id, popularity or
/// sibling group.
pub proof fn law_whole_word_name_scores_60(name: Seq<char>, keywords: Seq<Seq<char>>, q: Seq<char>, q_bytes: int, popular: Seq<Seq<char>>)
    requires
        q.len() > 0,
        name != q,
        is_word_of(name, q),
        !popular.contains(name),
        !sibling_applies(name, Seq::empty(), q),
    ensures
        relevance(name, None, None, None, keywords, q, q_bytes, popular) == 60,
{
    assert(!is_prefix(q, Seq::<char>::empty()));
    assert(!is_word_of(Seq::<char>::empty(), q));
    assert(Seq::<char>::empty() != q);
    let i = choose|i: int|
        occurs_at(name, q, i) && (i == 0 || is_delim(name[i - 1])) && (i + q.len() == name.len()
            || is_delim(name[i + q.len()]));
    assert(contains(name, q));
}

} // verus!
