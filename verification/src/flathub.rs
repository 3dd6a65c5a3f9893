//! Flathub: mapping between package names and Flathub app ids, screenshot selection,
//! and conversion of Flathub metadata into the store's metadata.
use vstd::prelude::*;
use crate::text::{
    chars_of, concat_str, eq, eq_str, is_suffix, lower_chars, lowercase, slice_copy, string_of,
    string_views, trim,
};

verus! {

/// The direct mapping, part 1.
pub open spec fn mapped_part_0(name: Seq<char>) -> Option<Seq<char>> {
    if name == "firefox"@ {
        Some("org.mozilla.firefox"@)
    } else if name == "chromium"@ {
        Some("org.chromium.Chromium"@)
    } else if name == "google-chrome"@ {
        Some("com.google.Chrome"@)
    } else if name == "brave"@ {
        Some("com.brave.Browser"@)
    } else if name == "brave-bin"@ {
        Some("com.brave.Browser"@)
    } else if name == "brave-browser"@ {
        Some("com.brave.Browser"@)
    } else if name == "vivaldi"@ {
        Some("com.vivaldi.Vivaldi"@)
    } else if name == "microsoft-edge-stable-bin"@ {
        Some("com.microsoft.Edge"@)
    } else if name == "discord"@ {
        Some("com.discordapp.Discord"@)
    } else if name == "slack-desktop"@ {
        Some("com.slack.Slack"@)
    } else if name == "telegram-desktop"@ {
        Some("org.telegram.desktop"@)
    } else if name == "signal-desktop"@ {
        Some("org.signal.Signal"@)
    } else if name == "zoom"@ {
        Some("us.zoom.Zoom"@)
    } else if name == "teams"@ {
        Some("com.microsoft.Teams"@)
    } else if name == "spotify"@ {
        Some("com.spotify.Client"@)
    } else if name == "spotify-launcher"@ {
        Some("com.spotify.Client"@)
    } else if name == "vlc"@ {
        Some("org.videolan.VLC"@)
    } else {
        None
    }
}

/// The direct mapping, part 2.
pub open spec fn mapped_part_1(name: Seq<char>) -> Option<Seq<char>> {
    if name == "obs-studio"@ {
        Some("com.obsproject.Studio"@)
    } else if name == "gimp"@ {
        Some("org.gimp.GIMP"@)
    } else if name == "inkscape"@ {
        Some("org.inkscape.Inkscape"@)
    } else if name == "blender"@ {
        Some("org.blender.Blender"@)
    } else if name == "kdenlive"@ {
        Some("org.kde.kdenlive"@)
    } else if name == "audacity"@ {
        Some("org.audacityteam.Audacity"@)
    } else if name == "visual-studio-code-bin"@ {
        Some("com.visualstudio.code"@)
    } else if name == "code"@ {
        Some("com.visualstudio.code"@)
    } else if name == "jetbrains-toolbox"@ {
        Some("com.jetbrains.Toolbox"@)
    } else if name == "sublime-text-4"@ {
        Some("com.sublimetext.three"@)
    } else if name == "atom"@ {
        Some("io.atom.Atom"@)
    } else if name == "postman-bin"@ {
        Some("com.getpostman.Postman"@)
    } else if name == "steam"@ {
        Some("com.valvesoftware.Steam"@)
    } else if name == "lutris"@ {
        Some("net.lutris.Lutris"@)
    } else if name == "lutris-ge"@ {
        Some("net.lutris.Lutris"@)
    } else if name == "minecraft-launcher"@ {
        Some("com.mojang.Minecraft"@)
    } else if name == "libreoffice-fresh"@ {
        Some("org.libreoffice.LibreOffice"@)
    } else {
        None
    }
}

/// The direct mapping, part 3.
pub open spec fn mapped_part_2(name: Seq<char>) -> Option<Seq<char>> {
    if name == "libreoffice-still"@ {
        Some("org.libreoffice.LibreOffice"@)
    } else if name == "onlyoffice-bin"@ {
        Some("org.onlyoffice.desktopeditors"@)
    } else if name == "bitwarden"@ {
        Some("com.bitwarden.desktop"@)
    } else if name == "keepassxc"@ {
        Some("org.keepassxc.KeePassXC"@)
    } else if name == "thunderbird"@ {
        Some("org.mozilla.Thunderbird"@)
    } else if name == "filezilla"@ {
        Some("org.filezilla_project.Filezilla"@)
    } else if name == "qbittorrent"@ {
        Some("org.qbittorrent.qBittorrent"@)
    } else if name == "transmission-gtk"@ {
        Some("com.transmissionbt.Transmission"@)
    } else if name == "virtualbox"@ {
        Some("org.virtualbox.VirtualBox"@)
    } else if name == "bottles"@ {
        Some("com.usebottles.bottles"@)
    } else if name == "anydesk"@ {
        Some("com.anydesk.Anydesk"@)
    } else if name == "anydesk-bin"@ {
        Some("com.anydesk.Anydesk"@)
    } else if name == "obsidian"@ {
        Some("md.obsidian.Obsidian"@)
    } else if name == "teams-for-linux"@ {
        Some("com.github.IsmaelMartinez.teams_for_linux"@)
    } else if name == "heroic"@ {
        Some("com.heroicgameslauncher.hgl"@)
    } else if name == "figma-linux-bin"@ {
        Some("io.github.Figma_Linux.figma_linux"@)
    } else if name == "heroic-games-launcher"@ {
        Some("com.heroicgameslauncher.hgl"@)
    } else {
        None
    }
}

/// The direct mapping, part 4.
pub open spec fn mapped_part_3(name: Seq<char>) -> Option<Seq<char>> {
    if name == "heroic-games-launcher-bin"@ {
        Some("com.heroicgameslauncher.hgl"@)
    } else if name == "notion-app-enhanced"@ {
        Some("notion.id"@)
    } else if name == "telegram-desktop-bin"@ {
        Some("org.telegram.desktop"@)
    } else if name == "visual-studio-code-insiders-bin"@ {
        Some("com.visualstudio.code.insiders"@)
    } else if name == "insomnia-bin"@ {
        Some("com.getinsomnia.Insomnia"@)
    } else if name == "discord-canary"@ {
        Some("com.discordapp.DiscordCanary"@)
    } else if name == "discord-ptb"@ {
        Some("com.discordapp.DiscordPTB"@)
    } else if name == "element-desktop"@ {
        Some("im.riot.Riot"@)
    } else if name == "standard-notes-bin"@ {
        Some("org.standardnotes.standardnotes"@)
    } else if name == "simplenote-bin"@ {
        Some("com.simplenote.Simplenote"@)
    } else if name == "bitwarden-desktop"@ {
        Some("com.bitwarden.desktop"@)
    } else if name == "authy"@ {
        Some("com.authy.Authy"@)
    } else if name == "mailspring"@ {
        Some("com.getmailspring.Mailspring"@)
    } else if name == "balena-etcher"@ {
        Some("io.balena.etcher"@)
    } else if name == "stremio"@ {
        Some("com.stremio.Stremio"@)
    } else if name == "plex-desktop"@ {
        Some("tv.plex.PlexDesktop"@)
    } else if name == "teamviewer"@ {
        Some("com.teamviewer.TeamViewer"@)
    } else {
        None
    }
}

/// The Flathub app id that a package name maps to directly.
pub open spec fn mapped_app_id(name: Seq<char>) -> Option<Seq<char>> {
    match mapped_part_0(name) {
        Some(x) => Some(x),
        None => match mapped_part_1(name) {
        Some(x) => Some(x),
        None => match mapped_part_2(name) {
        Some(x) => Some(x),
        None => mapped_part_3(name),
    },
    },
    }
}

fn mapped_part_0_of(name: &[char]) -> (r: Option<&'static str>)
    ensures
        match r {
            Some(s) => mapped_part_0(name@) == Some(s@),
            None => mapped_part_0(name@) is None,
        },
{
    if eq_str(name, "firefox") {
        Some("org.mozilla.firefox")
    } else if eq_str(name, "chromium") {
        Some("org.chromium.Chromium")
    } else if eq_str(name, "google-chrome") {
        Some("com.google.Chrome")
    } else if eq_str(name, "brave") {
        Some("com.brave.Browser")
    } else if eq_str(name, "brave-bin") {
        Some("com.brave.Browser")
    } else if eq_str(name, "brave-browser") {
        Some("com.brave.Browser")
    } else if eq_str(name, "vivaldi") {
        Some("com.vivaldi.Vivaldi")
    } else if eq_str(name, "microsoft-edge-stable-bin") {
        Some("com.microsoft.Edge")
    } else if eq_str(name, "discord") {
        Some("com.discordapp.Discord")
    } else if eq_str(name, "slack-desktop") {
        Some("com.slack.Slack")
    } else if eq_str(name, "telegram-desktop") {
        Some("org.telegram.desktop")
    } else if eq_str(name, "signal-desktop") {
        Some("org.signal.Signal")
    } else if eq_str(name, "zoom") {
        Some("us.zoom.Zoom")
    } else if eq_str(name, "teams") {
        Some("com.microsoft.Teams")
    } else if eq_str(name, "spotify") {
        Some("com.spotify.Client")
    } else if eq_str(name, "spotify-launcher") {
        Some("com.spotify.Client")
    } else if eq_str(name, "vlc") {
        Some("org.videolan.VLC")
    } else {
        None
    }
}

fn mapped_part_1_of(name: &[char]) -> (r: Option<&'static str>)
    ensures
        match r {
            Some(s) => mapped_part_1(name@) == Some(s@),
            None => mapped_part_1(name@) is None,
        },
{
    if eq_str(name, "obs-studio") {
        Some("com.obsproject.Studio")
    } else if eq_str(name, "gimp") {
        Some("org.gimp.GIMP")
    } else if eq_str(name, "inkscape") {
        Some("org.inkscape.Inkscape")
    } else if eq_str(name, "blender") {
        Some("org.blender.Blender")
    } else if eq_str(name, "kdenlive") {
        Some("org.kde.kdenlive")
    } else if eq_str(name, "audacity") {
        Some("org.audacityteam.Audacity")
    } else if eq_str(name, "visual-studio-code-bin") {
        Some("com.visualstudio.code")
    } else if eq_str(name, "code") {
        Some("com.visualstudio.code")
    } else if eq_str(name, "jetbrains-toolbox") {
        Some("com.jetbrains.Toolbox")
    } else if eq_str(name, "sublime-text-4") {
        Some("com.sublimetext.three")
    } else if eq_str(name, "atom") {
        Some("io.atom.Atom")
    } else if eq_str(name, "postman-bin") {
        Some("com.getpostman.Postman")
    } else if eq_str(name, "steam") {
        Some("com.valvesoftware.Steam")
    } else if eq_str(name, "lutris") {
        Some("net.lutris.Lutris")
    } else if eq_str(name, "lutris-ge") {
        Some("net.lutris.Lutris")
    } else if eq_str(name, "minecraft-launcher") {
        Some("com.mojang.Minecraft")
    } else if eq_str(name, "libreoffice-fresh") {
        Some("org.libreoffice.LibreOffice")
    } else {
        None
    }
}

fn mapped_part_2_of(name: &[char]) -> (r: Option<&'static str>)
    ensures
        match r {
            Some(s) => mapped_part_2(name@) == Some(s@),
            None => mapped_part_2(name@) is None,
        },
{
    if eq_str(name, "libreoffice-still") {
        Some("org.libreoffice.LibreOffice")
    } else if eq_str(name, "onlyoffice-bin") {
        Some("org.onlyoffice.desktopeditors")
    } else if eq_str(name, "bitwarden") {
        Some("com.bitwarden.desktop")
    } else if eq_str(name, "keepassxc") {
        Some("org.keepassxc.KeePassXC")
    } else if eq_str(name, "thunderbird") {
        Some("org.mozilla.Thunderbird")
    } else if eq_str(name, "filezilla") {
        Some("org.filezilla_project.Filezilla")
    } else if eq_str(name, "qbittorrent") {
        Some("org.qbittorrent.qBittorrent")
    } else if eq_str(name, "transmission-gtk") {
        Some("com.transmissionbt.Transmission")
    } else if eq_str(name, "virtualbox") {
        Some("org.virtualbox.VirtualBox")
    } else if eq_str(name, "bottles") {
        Some("com.usebottles.bottles")
    } else if eq_str(name, "anydesk") {
        Some("com.anydesk.Anydesk")
    } else if eq_str(name, "anydesk-bin") {
        Some("com.anydesk.Anydesk")
    } else if eq_str(name, "obsidian") {
        Some("md.obsidian.Obsidian")
    } else if eq_str(name, "teams-for-linux") {
        Some("com.github.IsmaelMartinez.teams_for_linux")
    } else if eq_str(name, "heroic") {
        Some("com.heroicgameslauncher.hgl")
    } else if eq_str(name, "figma-linux-bin") {
        Some("io.github.Figma_Linux.figma_linux")
    } else if eq_str(name, "heroic-games-launcher") {
        Some("com.heroicgameslauncher.hgl")
    } else {
        None
    }
}

fn mapped_part_3_of(name: &[char]) -> (r: Option<&'static str>)
    ensures
        match r {
            Some(s) => mapped_part_3(name@) == Some(s@),
            None => mapped_part_3(name@) is None,
        },
{
    if eq_str(name, "heroic-games-launcher-bin") {
        Some("com.heroicgameslauncher.hgl")
    } else if eq_str(name, "notion-app-enhanced") {
        Some("notion.id")
    } else if eq_str(name, "telegram-desktop-bin") {
        Some("org.telegram.desktop")
    } else if eq_str(name, "visual-studio-code-insiders-bin") {
        Some("com.visualstudio.code.insiders")
    } else if eq_str(name, "insomnia-bin") {
        Some("com.getinsomnia.Insomnia")
    } else if eq_str(name, "discord-canary") {
        Some("com.discordapp.DiscordCanary")
    } else if eq_str(name, "discord-ptb") {
        Some("com.discordapp.DiscordPTB")
    } else if eq_str(name, "element-desktop") {
        Some("im.riot.Riot")
    } else if eq_str(name, "standard-notes-bin") {
        Some("org.standardnotes.standardnotes")
    } else if eq_str(name, "simplenote-bin") {
        Some("com.simplenote.Simplenote")
    } else if eq_str(name, "bitwarden-desktop") {
        Some("com.bitwarden.desktop")
    } else if eq_str(name, "authy") {
        Some("com.authy.Authy")
    } else if eq_str(name, "mailspring") {
        Some("com.getmailspring.Mailspring")
    } else if eq_str(name, "balena-etcher") {
        Some("io.balena.etcher")
    } else if eq_str(name, "stremio") {
        Some("com.stremio.Stremio")
    } else if eq_str(name, "plex-desktop") {
        Some("tv.plex.PlexDesktop")
    } else if eq_str(name, "teamviewer") {
        Some("com.teamviewer.TeamViewer")
    } else {
        None
    }
}

/// The direct mapping of a package name.
pub fn mapped_app_id_of(name: &[char]) -> (r: Option<&'static str>)
    ensures
        match r {
            Some(s) => mapped_app_id(name@) == Some(s@),
            None => mapped_app_id(name@) is None,
        },
{
    match mapped_part_0_of(name) {
        Some(x) => Some(x),
        None => match mapped_part_1_of(name) {
        Some(x) => Some(x),
        None => match mapped_part_2_of(name) {
        Some(x) => Some(x),
        None => mapped_part_3_of(name),
    },
    },
    }
}

/// `s` with the non-empty pattern `p` removed from its end as often as it occurs there
/// (`str::trim_end_matches` with a string).
pub open spec fn trim_end_pattern(s: Seq<char>, p: Seq<char>) -> Seq<char>
    decreases s.len(),
{
    if p.len() > 0 && is_suffix(p, s) {
        trim_end_pattern(s.take(s.len() - p.len()), p)
    } else {
        s
    }
}

pub(crate) fn trim_end_pattern_chars(s: &[char], p: &str) -> (r: Vec<char>)
    requires
        p@.len() > 0,
    ensures
        r@ == trim_end_pattern(s@, p@),
{
    let pv = chars_of(p);
    let mut k: usize = s.len();
    assert(s@.subrange(0, k as int) == s@);
    while k >= pv.len() && crate::text::matches_at(s, pv.as_slice(), k - pv.len())
        invariant
            0 <= k <= s@.len(),
            pv@ == p@,
            pv@.len() > 0,
            trim_end_pattern(s@.subrange(0, k as int), p@) == trim_end_pattern(s@, p@),
        decreases k,
    {
        let ghost cur = s@.subrange(0, k as int);
        assert(cur.subrange(cur.len() - p@.len(), cur.len() as int) == s@.subrange(
            k - p@.len(),
            k as int,
        ));
        assert(cur.take(cur.len() - p@.len()) == s@.subrange(0, k - p@.len()));
        k = k - pv.len();
    }
    proof {
        let cur = s@.subrange(0, k as int);
        if k >= p@.len() {
            assert(cur.subrange(cur.len() - p@.len(), cur.len() as int) == s@.subrange(
                k - p@.len(),
                k as int,
            ));
        }
    }
    slice_copy(s, 0, k)
}

/// The app id found by stripping the first applicable suffix among `suffixes[i..]`
/// (each stripped as often as it ends the name) and mapping what is left.
pub open spec fn app_id_by_suffix(name: Seq<char>, suffixes: Seq<Seq<char>>, i: int) -> Option<Seq<char>>
    decreases suffixes.len() - i,
{
    if i >= suffixes.len() || i < 0 {
        None
    } else if is_suffix(suffixes[i], name) && mapped_app_id(
        trim_end_pattern(name, suffixes[i]),
    ) is Some {
        mapped_app_id(trim_end_pattern(name, suffixes[i]))
    } else {
        app_id_by_suffix(name, suffixes, i + 1)
    }
}

/// The suffixes of development and packaging variants that are stripped before mapping.
pub open spec fn variant_suffixes() -> Seq<Seq<char>> {
    crate::ranking::strs(seq!["-bin", "-git", "-nightly", "-beta", "-appimage"])
}

/// The Flathub app id of a package name: its direct mapping, else the mapping of the name
/// with a variant suffix stripped.
pub open spec fn flathub_app_id_of(name: Seq<char>) -> Option<Seq<char>> {
    match mapped_app_id(name) {
        Some(x) => Some(x),
        None => app_id_by_suffix(name, variant_suffixes(), 0),
    }
}

/// The Flathub app id of the package `pkg_name`, if it is a known application.
pub fn get_flathub_app_id(pkg_name: &str) -> (r: Option<String>)
    ensures
        match r {
            Some(s) => flathub_app_id_of(pkg_name@) == Some(s@),
            None => flathub_app_id_of(pkg_name@) is None,
        },
{
    let name = chars_of(pkg_name);
    match mapped_app_id_of(name.as_slice()) {
        Some(id) => {
            return Some(String::from_str(id));
        },
        None => {},
    }
    let suffixes: &[&str] = &["-bin", "-git", "-nightly", "-beta", "-appimage"];
    assert(crate::ranking::strs(suffixes@) == variant_suffixes());
    let mut i: usize = 0;
    while i < suffixes.len()
        invariant
            0 <= i <= suffixes@.len(),
            suffixes@.len() == 5,
            name@ == pkg_name@,
            mapped_app_id(name@) is None,
            crate::ranking::strs(suffixes@) == variant_suffixes(),
            app_id_by_suffix(name@, variant_suffixes(), 0) == app_id_by_suffix(
                name@,
                variant_suffixes(),
                i as int,
            ),
        decreases 5 - i,
    {
        assert(variant_suffixes()[i as int] == suffixes@[i as int]@);
        proof {
            reveal_strlit("-bin");
            reveal_strlit("-git");
            reveal_strlit("-nightly");
            reveal_strlit("-beta");
            reveal_strlit("-appimage");
        }
        assert(suffixes@[i as int]@.len() > 0);
        if crate::text::ends_with(name.as_slice(), suffixes[i]) {
            let base = trim_end_pattern_chars(name.as_slice(), suffixes[i]);
            match mapped_app_id_of(base.as_slice()) {
                Some(id) => {
                    assert(is_suffix(variant_suffixes()[i as int], name@));
                    assert(base@ == trim_end_pattern(name@, variant_suffixes()[i as int]));
                    assert(app_id_by_suffix(name@, variant_suffixes(), i as int) == Some(id@));
                    return Some(String::from_str(id));
                },
                None => {},
            }
        }
        i += 1;
    }
    None
}

/// `id` (a trimmed, lower-cased app id) names the Flathub app `app`, with or without the
/// `.desktop` ending.
pub open spec fn id_matches(id: Seq<char>, app: Seq<char>) -> bool {
    id == lowercase(app) || id == lowercase(app) + ".desktop"@
}

fn id_matches_exec(id: &[char], app: &str) -> (r: bool)
    ensures
        r == id_matches(id@, app@),
{
    let l = lower_chars(app);
    if eq(id, l.as_slice()) {
        return true;
    }
    let d = concat_str(l.as_slice(), ".desktop");
    eq(id, d.as_slice())
}

/// The reverse mapping, part 1.
pub open spec fn reverse_part_0(id: Seq<char>) -> Option<Seq<char>> {
    if id_matches(id, "org.mozilla.firefox"@) {
        Some("firefox"@)
    } else if id_matches(id, "org.chromium.Chromium"@) {
        Some("chromium"@)
    } else if id_matches(id, "com.google.Chrome"@) {
        Some("google-chrome"@)
    } else if id_matches(id, "com.brave.Browser"@) {
        Some("brave"@)
    } else if id_matches(id, "com.vivaldi.Vivaldi"@) {
        Some("vivaldi"@)
    } else if id_matches(id, "com.microsoft.Edge"@) {
        Some("microsoft-edge-stable-bin"@)
    } else if id_matches(id, "com.discordapp.Discord"@) {
        Some("discord"@)
    } else if id_matches(id, "com.slack.Slack"@) {
        Some("slack-desktop"@)
    } else if id_matches(id, "org.telegram.desktop"@) {
        Some("telegram-desktop"@)
    } else if id_matches(id, "org.signal.Signal"@) {
        Some("signal-desktop"@)
    } else {
        None
    }
}

/// The reverse mapping, part 2.
pub open spec fn reverse_part_1(id: Seq<char>) -> Option<Seq<char>> {
    if id_matches(id, "us.zoom.Zoom"@) {
        Some("zoom"@)
    } else if id_matches(id, "com.microsoft.Teams"@) {
        Some("teams"@)
    } else if id_matches(id, "com.spotify.Client"@) {
        Some("spotify"@)
    } else if id_matches(id, "org.videolan.VLC"@) {
        Some("vlc"@)
    } else if id_matches(id, "com.obsproject.Studio"@) {
        Some("obs-studio"@)
    } else if id_matches(id, "org.gimp.GIMP"@) {
        Some("gimp"@)
    } else if id_matches(id, "org.inkscape.Inkscape"@) {
        Some("inkscape"@)
    } else if id_matches(id, "org.blender.Blender"@) {
        Some("blender"@)
    } else if id_matches(id, "org.kde.kdenlive"@) {
        Some("kdenlive"@)
    } else if id_matches(id, "org.audacityteam.Audacity"@) {
        Some("audacity"@)
    } else {
        None
    }
}

/// The reverse mapping, part 3.
pub open spec fn reverse_part_2(id: Seq<char>) -> Option<Seq<char>> {
    if id_matches(id, "com.visualstudio.code"@) {
        Some("visual-studio-code-bin"@)
    } else if id_matches(id, "com.visualstudio.code"@) {
        Some("code"@)
    } else if id_matches(id, "com.valvesoftware.Steam"@) {
        Some("steam"@)
    } else if id_matches(id, "net.lutris.Lutris"@) {
        Some("lutris"@)
    } else if id_matches(id, "com.mojang.Minecraft"@) {
        Some("minecraft-launcher"@)
    } else if id_matches(id, "org.libreoffice.LibreOffice"@) {
        Some("libreoffice-fresh"@)
    } else if id_matches(id, "org.libreoffice.LibreOffice"@) {
        Some("libreoffice-still"@)
    } else if id_matches(id, "org.onlyoffice.desktopeditors"@) {
        Some("onlyoffice-bin"@)
    } else if id_matches(id, "com.bitwarden.desktop"@) {
        Some("bitwarden"@)
    } else if id_matches(id, "org.keepassxc.KeePassXC"@) {
        Some("keepassxc"@)
    } else {
        None
    }
}

/// The reverse mapping, part 4.
pub open spec fn reverse_part_3(id: Seq<char>) -> Option<Seq<char>> {
    if id_matches(id, "org.mozilla.Thunderbird"@) {
        Some("thunderbird"@)
    } else if id_matches(id, "org.filezilla_project.Filezilla"@) {
        Some("filezilla"@)
    } else if id_matches(id, "org.qbittorrent.qBittorrent"@) {
        Some("qbittorrent"@)
    } else if id_matches(id, "com.transmissionbt.Transmission"@) {
        Some("transmission-gtk"@)
    } else if id_matches(id, "org.virtualbox.VirtualBox"@) {
        Some("virtualbox"@)
    } else if id_matches(id, "com.heroicgameslauncher.hgl"@) {
        Some("heroic-games-launcher-bin"@)
    } else if id_matches(id, "im.riot.Riot"@) {
        Some("element-desktop"@)
    } else if id_matches(id, "com.github.IsmaelMartinez.teams_for_linux"@) {
        Some("teams-for-linux"@)
    } else {
        None
    }
}

/// The reverse mapping, part 5: the ids of the direct mappings not listed above.
pub open spec fn reverse_part_4(id: Seq<char>) -> Option<Seq<char>> {
    if id_matches(id, "com.jetbrains.Toolbox"@) {
        Some("jetbrains-toolbox"@)
    } else if id_matches(id, "com.sublimetext.three"@) {
        Some("sublime-text-4"@)
    } else if id_matches(id, "io.atom.Atom"@) {
        Some("atom"@)
    } else if id_matches(id, "com.getpostman.Postman"@) {
        Some("postman-bin"@)
    } else if id_matches(id, "com.usebottles.bottles"@) {
        Some("bottles"@)
    } else if id_matches(id, "com.anydesk.Anydesk"@) {
        Some("anydesk"@)
    } else if id_matches(id, "md.obsidian.Obsidian"@) {
        Some("obsidian"@)
    } else if id_matches(id, "io.github.Figma_Linux.figma_linux"@) {
        Some("figma-linux-bin"@)
    } else if id_matches(id, "notion.id"@) {
        Some("notion-app-enhanced"@)
    } else if id_matches(id, "com.visualstudio.code.insiders"@) {
        Some("visual-studio-code-insiders-bin"@)
    } else if id_matches(id, "com.getinsomnia.Insomnia"@) {
        Some("insomnia-bin"@)
    } else {
        None
    }
}

/// The reverse mapping, part 6: the ids of the direct mappings not listed above.
pub open spec fn reverse_part_5(id: Seq<char>) -> Option<Seq<char>> {
    if id_matches(id, "com.discordapp.DiscordCanary"@) {
        Some("discord-canary"@)
    } else if id_matches(id, "com.discordapp.DiscordPTB"@) {
        Some("discord-ptb"@)
    } else if id_matches(id, "org.standardnotes.standardnotes"@) {
        Some("standard-notes-bin"@)
    } else if id_matches(id, "com.simplenote.Simplenote"@) {
        Some("simplenote-bin"@)
    } else if id_matches(id, "com.authy.Authy"@) {
        Some("authy"@)
    } else if id_matches(id, "com.getmailspring.Mailspring"@) {
        Some("mailspring"@)
    } else if id_matches(id, "io.balena.etcher"@) {
        Some("balena-etcher"@)
    } else if id_matches(id, "com.stremio.Stremio"@) {
        Some("stremio"@)
    } else if id_matches(id, "tv.plex.PlexDesktop"@) {
        Some("plex-desktop"@)
    } else if id_matches(id, "com.teamviewer.TeamViewer"@) {
        Some("teamviewer"@)
    } else {
        None
    }
}

/// The package name of a trimmed, lower-cased Flathub app id: the ids of the direct
/// mappings, in reverse.
pub open spec fn package_for_app_id(id: Seq<char>) -> Option<Seq<char>> {
    match reverse_part_0(id) {
        Some(x) => Some(x),
        None => match reverse_part_1(id) {
        Some(x) => Some(x),
        None => match reverse_part_2(id) {
        Some(x) => Some(x),
        None => match reverse_part_3(id) {
        Some(x) => Some(x),
        None => match reverse_part_4(id) {
        Some(x) => Some(x),
        None => reverse_part_5(id),
    },
    },
    },
    },
    }
}

fn reverse_part_0_of(id: &[char]) -> (r: Option<&'static str>)
    ensures
        match r {
            Some(s) => reverse_part_0(id@) == Some(s@),
            None => reverse_part_0(id@) is None,
        },
{
    if id_matches_exec(id, "org.mozilla.firefox") {
        return Some("firefox");
    }
    if id_matches_exec(id, "org.chromium.Chromium") {
        return Some("chromium");
    }
    if id_matches_exec(id, "com.google.Chrome") {
        return Some("google-chrome");
    }
    if id_matches_exec(id, "com.brave.Browser") {
        return Some("brave");
    }
    if id_matches_exec(id, "com.vivaldi.Vivaldi") {
        return Some("vivaldi");
    }
    if id_matches_exec(id, "com.microsoft.Edge") {
        return Some("microsoft-edge-stable-bin");
    }
    if id_matches_exec(id, "com.discordapp.Discord") {
        return Some("discord");
    }
    if id_matches_exec(id, "com.slack.Slack") {
        return Some("slack-desktop");
    }
    if id_matches_exec(id, "org.telegram.desktop") {
        return Some("telegram-desktop");
    }
    if id_matches_exec(id, "org.signal.Signal") {
        return Some("signal-desktop");
    }
    None
}

fn reverse_part_1_of(id: &[char]) -> (r: Option<&'static str>)
    ensures
        match r {
            Some(s) => reverse_part_1(id@) == Some(s@),
            None => reverse_part_1(id@) is None,
        },
{
    if id_matches_exec(id, "us.zoom.Zoom") {
        return Some("zoom");
    }
    if id_matches_exec(id, "com.microsoft.Teams") {
        return Some("teams");
    }
    if id_matches_exec(id, "com.spotify.Client") {
        return Some("spotify");
    }
    if id_matches_exec(id, "org.videolan.VLC") {
        return Some("vlc");
    }
    if id_matches_exec(id, "com.obsproject.Studio") {
        return Some("obs-studio");
    }
    if id_matches_exec(id, "org.gimp.GIMP") {
        return Some("gimp");
    }
    if id_matches_exec(id, "org.inkscape.Inkscape") {
        return Some("inkscape");
    }
    if id_matches_exec(id, "org.blender.Blender") {
        return Some("blender");
    }
    if id_matches_exec(id, "org.kde.kdenlive") {
        return Some("kdenlive");
    }
    if id_matches_exec(id, "org.audacityteam.Audacity") {
        return Some("audacity");
    }
    None
}

fn reverse_part_2_of(id: &[char]) -> (r: Option<&'static str>)
    ensures
        match r {
            Some(s) => reverse_part_2(id@) == Some(s@),
            None => reverse_part_2(id@) is None,
        },
{
    if id_matches_exec(id, "com.visualstudio.code") {
        return Some("visual-studio-code-bin");
    }
    if id_matches_exec(id, "com.visualstudio.code") {
        return Some("code");
    }
    if id_matches_exec(id, "com.valvesoftware.Steam") {
        return Some("steam");
    }
    if id_matches_exec(id, "net.lutris.Lutris") {
        return Some("lutris");
    }
    if id_matches_exec(id, "com.mojang.Minecraft") {
        return Some("minecraft-launcher");
    }
    if id_matches_exec(id, "org.libreoffice.LibreOffice") {
        return Some("libreoffice-fresh");
    }
    if id_matches_exec(id, "org.libreoffice.LibreOffice") {
        return Some("libreoffice-still");
    }
    if id_matches_exec(id, "org.onlyoffice.desktopeditors") {
        return Some("onlyoffice-bin");
    }
    if id_matches_exec(id, "com.bitwarden.desktop") {
        return Some("bitwarden");
    }
    if id_matches_exec(id, "org.keepassxc.KeePassXC") {
        return Some("keepassxc");
    }
    None
}

fn reverse_part_3_of(id: &[char]) -> (r: Option<&'static str>)
    ensures
        match r {
            Some(s) => reverse_part_3(id@) == Some(s@),
            None => reverse_part_3(id@) is None,
        },
{
    if id_matches_exec(id, "org.mozilla.Thunderbird") {
        return Some("thunderbird");
    }
    if id_matches_exec(id, "org.filezilla_project.Filezilla") {
        return Some("filezilla");
    }
    if id_matches_exec(id, "org.qbittorrent.qBittorrent") {
        return Some("qbittorrent");
    }
    if id_matches_exec(id, "com.transmissionbt.Transmission") {
        return Some("transmission-gtk");
    }
    if id_matches_exec(id, "org.virtualbox.VirtualBox") {
        return Some("virtualbox");
    }
    if id_matches_exec(id, "com.heroicgameslauncher.hgl") {
        return Some("heroic-games-launcher-bin");
    }
    if id_matches_exec(id, "im.riot.Riot") {
        return Some("element-desktop");
    }
    if id_matches_exec(id, "com.github.IsmaelMartinez.teams_for_linux") {
        return Some("teams-for-linux");
    }
    None
}

fn reverse_part_4_of(id: &[char]) -> (r: Option<&'static str>)
    ensures
        match r {
            Some(s) => reverse_part_4(id@) == Some(s@),
            None => reverse_part_4(id@) is None,
        },
{
    if id_matches_exec(id, "com.jetbrains.Toolbox") {
        return Some("jetbrains-toolbox");
    }
    if id_matches_exec(id, "com.sublimetext.three") {
        return Some("sublime-text-4");
    }
    if id_matches_exec(id, "io.atom.Atom") {
        return Some("atom");
    }
    if id_matches_exec(id, "com.getpostman.Postman") {
        return Some("postman-bin");
    }
    if id_matches_exec(id, "com.usebottles.bottles") {
        return Some("bottles");
    }
    if id_matches_exec(id, "com.anydesk.Anydesk") {
        return Some("anydesk");
    }
    if id_matches_exec(id, "md.obsidian.Obsidian") {
        return Some("obsidian");
    }
    if id_matches_exec(id, "io.github.Figma_Linux.figma_linux") {
        return Some("figma-linux-bin");
    }
    if id_matches_exec(id, "notion.id") {
        return Some("notion-app-enhanced");
    }
    if id_matches_exec(id, "com.visualstudio.code.insiders") {
        return Some("visual-studio-code-insiders-bin");
    }
    if id_matches_exec(id, "com.getinsomnia.Insomnia") {
        return Some("insomnia-bin");
    }
    None
}

fn reverse_part_5_of(id: &[char]) -> (r: Option<&'static str>)
    ensures
        match r {
            Some(s) => reverse_part_5(id@) == Some(s@),
            None => reverse_part_5(id@) is None,
        },
{
    if id_matches_exec(id, "com.discordapp.DiscordCanary") {
        return Some("discord-canary");
    }
    if id_matches_exec(id, "com.discordapp.DiscordPTB") {
        return Some("discord-ptb");
    }
    if id_matches_exec(id, "org.standardnotes.standardnotes") {
        return Some("standard-notes-bin");
    }
    if id_matches_exec(id, "com.simplenote.Simplenote") {
        return Some("simplenote-bin");
    }
    if id_matches_exec(id, "com.authy.Authy") {
        return Some("authy");
    }
    if id_matches_exec(id, "com.getmailspring.Mailspring") {
        return Some("mailspring");
    }
    if id_matches_exec(id, "io.balena.etcher") {
        return Some("balena-etcher");
    }
    if id_matches_exec(id, "com.stremio.Stremio") {
        return Some("stremio");
    }
    if id_matches_exec(id, "tv.plex.PlexDesktop") {
        return Some("plex-desktop");
    }
    if id_matches_exec(id, "com.teamviewer.TeamViewer") {
        return Some("teamviewer");
    }
    None
}

/// The package name of a trimmed, lower-cased Flathub app id.
pub fn package_for_lowercased_app_id(id: &[char]) -> (r: Option<String>)
    ensures
        match r {
            Some(s) => package_for_app_id(id@) == Some(s@),
            None => package_for_app_id(id@) is None,
        },
{
    let found = match reverse_part_0_of(id) {
        Some(x) => Some(x),
        None => match reverse_part_1_of(id) {
        Some(x) => Some(x),
        None => match reverse_part_2_of(id) {
        Some(x) => Some(x),
        None => match reverse_part_3_of(id) {
        Some(x) => Some(x),
        None => match reverse_part_4_of(id) {
        Some(x) => Some(x),
        None => reverse_part_5_of(id),
    },
    },
    },
    },
    };
    match found {
        Some(s) => Some(String::from_str(s)),
        None => None,
    }
}

/// The package behind a Flathub app id (matched without regard to case or surrounding
/// space, with or without `.desktop`), if it is a known application.
pub fn get_package_name_from_app_id(app_id: &str) -> (r: Option<String>)
    ensures
        lowercase(trim(app_id@)).len() == 0 ==> r is None,
        lowercase(trim(app_id@)).len() > 0 ==> match r {
            Some(s) => package_for_app_id(lowercase(trim(app_id@))) == Some(s@),
            None => package_for_app_id(lowercase(trim(app_id@))) is None,
        },
{
    let t = crate::text::trim_str(app_id);
    let id = lower_chars(t.as_str());
    if id.len() == 0 {
        return None;
    }
    package_for_lowercased_app_id(id.as_slice())
}

/// Screenshot sizes in the Flathub API v2 appstream format.
#[derive(Debug, Clone)]
pub struct FlathubScreenshotSize {
    pub width: String,
    pub height: String,
    pub scale: Option<String>,
    pub src: String,
}

/// One screenshot: legacy fixed-size URLs, or a list of sizes.
#[derive(Debug, Clone)]
pub struct FlathubScreenshot {
    pub size_624: Option<String>,
    pub size_752: Option<String>,
    pub size_1248: Option<String>,
    pub sizes: Option<Vec<FlathubScreenshotSize>>,
}

/// One release of an application.
#[derive(Debug, Clone)]
pub struct FlathubRelease {
    pub version: Option<String>,
    pub timestamp: Option<String>,
}

/// Application metadata from Flathub.
#[derive(Debug, Clone)]
pub struct FlathubMetadata {
    pub id: Option<String>,
    pub name: Option<String>,
    pub summary: Option<String>,
    pub description: Option<String>,
    pub icon: Option<String>,
    pub screenshots: Vec<FlathubScreenshot>,
    pub developer_name: Option<String>,
    pub project_license: Option<String>,
    pub categories: Vec<String>,
    pub releases: Option<Vec<FlathubRelease>>,
}

/// A Flathub search hit.
#[derive(Debug, Clone)]
pub struct SearchResult {
    pub app_id: String,
    pub name: String,
    pub summary: Option<String>,
    pub icon: Option<String>,
}

/// The hits of a Flathub search.
#[derive(Debug, Clone)]
pub struct SearchResponse {
    pub hits: Vec<SearchResult>,
}

/// An installed Flatpak application.
#[derive(Debug, Clone)]
pub struct InstalledFlatpak {
    pub app_id: String,
    pub name: String,
    pub version: String,
    pub summary: String,
    pub origin: String,
}

/// The widths of a list of sizes, where they are decimal numbers.
pub open spec fn widths_of(sizes: Seq<FlathubScreenshotSize>) -> Seq<Option<u32>> {
    sizes.map_values(|z: FlathubScreenshotSize| crate::text::parse_u32(z.width@))
}

/// The first index at or after `i` whose width is `w`, or -1.
pub open spec fn first_with_width(ws: Seq<Option<u32>>, w: u32, i: int) -> int
    decreases ws.len() - i,
{
    if i < 0 || i >= ws.len() {
        -1
    } else if ws[i] == Some(w) {
        i
    } else {
        first_with_width(ws, w, i + 1)
    }
}

/// The largest known width among `ws`.
pub open spec fn max_width(ws: Seq<Option<u32>>) -> Option<u32>
    decreases ws.len(),
{
    if ws.len() == 0 {
        None
    } else {
        match (max_width(ws.drop_last()), ws.last()) {
            (Some(a), Some(b)) => Some(if a >= b {
                a
            } else {
                b
            }),
            (Some(a), None) => Some(a),
            (None, b) => b,
        }
    }
}

/// The chosen size: the first of width 1248, else 752, else 624, else the first of the
/// largest width; -1 when no width is known.
pub open spec fn chosen_size(ws: Seq<Option<u32>>) -> int {
    if first_with_width(ws, 1248, 0) >= 0 {
        first_with_width(ws, 1248, 0)
    } else if first_with_width(ws, 752, 0) >= 0 {
        first_with_width(ws, 752, 0)
    } else if first_with_width(ws, 624, 0) >= 0 {
        first_with_width(ws, 624, 0)
    } else {
        match max_width(ws) {
            Some(m) => first_with_width(ws, m, 0),
            None => -1,
        }
    }
}

/// The URL chosen for one screenshot.
pub open spec fn screenshot_url(s: FlathubScreenshot) -> Option<Seq<char>> {
    match s.sizes {
        Some(sizes) => {
            let k = chosen_size(widths_of(sizes@));
            if 0 <= k < sizes@.len() {
                Some(sizes@[k].src@)
            } else {
                None
            }
        },
        None => match (s.size_1248, s.size_752, s.size_624) {
            (Some(u), _, _) => Some(u@),
            (None, Some(u), _) => Some(u@),
            (None, None, Some(u)) => Some(u@),
            (None, None, None) => None,
        },
    }
}

/// The URLs chosen for a list of screenshots, one per screenshot that has one.
pub open spec fn screenshot_urls(ss: Seq<FlathubScreenshot>) -> Seq<Seq<char>>
    decreases ss.len(),
{
    if ss.len() == 0 {
        Seq::empty()
    } else {
        let prev = screenshot_urls(ss.drop_last());
        match screenshot_url(ss.last()) {
            Some(u) => prev.push(u),
            None => prev,
        }
    }
}

proof fn lemma_first_with_width_range(ws: Seq<Option<u32>>, w: u32, i: int)
    ensures
        first_with_width(ws, w, i) == -1 || (i <= first_with_width(ws, w, i) < ws.len()
            && ws[first_with_width(ws, w, i)] == Some(w)),
    decreases ws.len() - i,
{
    if 0 <= i < ws.len() && ws[i] != Some(w) {
        lemma_first_with_width_range(ws, w, i + 1);
    }
}

proof fn lemma_max_width_attained(ws: Seq<Option<u32>>)
    ensures
        match max_width(ws) {
            Some(m) => exists|k: int| 0 <= k < ws.len() && ws[k] == Some(m),
            None => true,
        },
    decreases ws.len(),
{
    if ws.len() > 0 {
        lemma_max_width_attained(ws.drop_last());
        match (max_width(ws.drop_last()), ws.last()) {
            (Some(a), Some(b)) => {
                let k = choose|k: int| 0 <= k < ws.drop_last().len() && ws.drop_last()[k] == Some(a);
                assert(ws[k] == Some(a));
                assert(ws[ws.len() - 1] == Some(b));
            },
            (Some(a), None) => {
                let k = choose|k: int| 0 <= k < ws.drop_last().len() && ws.drop_last()[k] == Some(a);
                assert(ws[k] == Some(a));
            },
            (None, b) => {
                assert(ws[ws.len() - 1] == b);
            },
        }
    }
}

/// A chosen size, when there is one, has a known width.
proof fn lemma_chosen_size_valid(ws: Seq<Option<u32>>)
    ensures
        chosen_size(ws) == -1 || (0 <= chosen_size(ws) < ws.len() && ws[chosen_size(ws)] is Some),
{
    lemma_first_with_width_range(ws, 1248, 0);
    lemma_first_with_width_range(ws, 752, 0);
    lemma_first_with_width_range(ws, 624, 0);
    match max_width(ws) {
        Some(m) => {
            lemma_first_with_width_range(ws, m, 0);
        },
        None => {},
    }
}

fn first_with_width_exec(ws: &Vec<Option<u32>>, w: u32) -> (r: Option<usize>)
    ensures
        match r {
            Some(i) => first_with_width(ws@, w, 0) == i as int,
            None => first_with_width(ws@, w, 0) == -1,
        },
{
    let mut i: usize = 0;
    while i < ws.len()
        invariant
            0 <= i <= ws@.len(),
            first_with_width(ws@, w, 0) == first_with_width(ws@, w, i as int),
        decreases ws@.len() - i,
    {
        if ws[i] == Some(w) {
            return Some(i);
        }
        i += 1;
    }
    None
}

/// The URL chosen among a screenshot's sizes.
fn url_from_sizes(sizes: &Vec<FlathubScreenshotSize>) -> (r: Option<String>)
    ensures
        match r {
            Some(u) => 0 <= chosen_size(widths_of(sizes@)) < sizes@.len() && u@
                == sizes@[chosen_size(widths_of(sizes@))].src@,
            None => !(0 <= chosen_size(widths_of(sizes@)) < sizes@.len()),
        },
{
    let mut ws: Vec<Option<u32>> = Vec::new();
    let mut best: Option<u32> = None;
    let mut i: usize = 0;
    while i < sizes.len()
        invariant
            0 <= i <= sizes@.len(),
            ws@ == widths_of(sizes@).take(i as int),
            best == max_width(ws@),
        decreases sizes@.len() - i,
    {
        let wc = chars_of(sizes[i].width.as_str());
        let w = crate::text::parse_u32_chars(wc.as_slice());
        let ghost old_ws = ws@;
        ws.push(w);
        assert(ws@.drop_last() == old_ws);
        best = match (best, w) {
            (Some(a), Some(b)) => Some(if a >= b {
                a
            } else {
                b
            }),
            (Some(a), None) => Some(a),
            (None, b) => b,
        };
        assert(widths_of(sizes@).take(i + 1) == widths_of(sizes@).take(i as int).push(w));
        i += 1;
    }
    assert(widths_of(sizes@).take(sizes@.len() as int) == widths_of(sizes@));
    proof {
        lemma_chosen_size_valid(ws@);
    }
    let k = match first_with_width_exec(&ws, 1248) {
        Some(k) => Some(k),
        None => match first_with_width_exec(&ws, 752) {
            Some(k) => Some(k),
            None => match first_with_width_exec(&ws, 624) {
                Some(k) => Some(k),
                None => match best {
                    Some(m) => first_with_width_exec(&ws, m),
                    None => None,
                },
            },
        },
    };
    match k {
        Some(k) => {
            assert(k as int == chosen_size(ws@));
            Some(sizes[k].src.clone())
        },
        None => {
            assert(chosen_size(ws@) == -1);
            None
        },
    }
}

/// One URL per screenshot: from its sizes the first of width 1248, then 752, then 624,
/// then the first of the largest width; from legacy entries the 1248, 752 or 624 URL;
/// screenshots with no usable URL are skipped.
pub fn screenshot_urls_from_flathub(screenshots: &Vec<FlathubScreenshot>) -> (r: Vec<String>)
    ensures
        string_views(r@) == screenshot_urls(screenshots@),
{
    let mut out: Vec<String> = Vec::new();
    let mut i: usize = 0;
    while i < screenshots.len()
        invariant
            0 <= i <= screenshots@.len(),
            string_views(out@) == screenshot_urls(screenshots@.take(i as int)),
        decreases screenshots@.len() - i,
    {
        let s = &screenshots[i];
        assert(screenshots@.take(i + 1).drop_last() == screenshots@.take(i as int));
        assert(screenshots@.take(i + 1).last() == *s);
        let url = match &s.sizes {
            Some(sizes) => url_from_sizes(sizes),
            None => match &s.size_1248 {
                Some(u) => Some(u.clone()),
                None => match &s.size_752 {
                    Some(u) => Some(u.clone()),
                    None => match &s.size_624 {
                        Some(u) => Some(u.clone()),
                        None => None,
                    },
                },
            },
        };
        match url {
            Some(u) => {
                let ghost old_out = out@;
                out.push(u);
                assert(string_views(out@) == string_views(old_out).push(u@));
            },
            None => {},
        }
        i += 1;
    }
    assert(screenshots@.take(screenshots@.len() as int) == screenshots@);
    out
}

/// Store metadata of an application.
#[derive(Debug, Clone)]
pub struct AppMetadata {
    pub name: String,
    pub pkg_name: Option<String>,
    pub icon_url: Option<String>,
    pub app_id: String,
    pub summary: Option<String>,
    pub screenshots: Vec<String>,
    pub version: Option<String>,
    pub maintainer: Option<String>,
    pub license: Option<String>,
    pub last_updated: Option<u64>,
    pub description: Option<String>,
    pub is_local: bool,
    pub installed: Option<bool>,
}

/// The characters of an optional string.
pub open spec fn opt_view(o: Option<String>) -> Option<Seq<char>> {
    match o {
        Some(s) => Some(s@),
        None => None,
    }
}

/// The first release listed, if any.
pub open spec fn first_release(r: Option<Vec<FlathubRelease>>) -> Option<FlathubRelease> {
    match r {
        Some(v) => if v@.len() > 0 {
            Some(v@[0])
        } else {
            None
        },
        None => None,
    }
}

/// The update time of a release: its timestamp read as a signed decimal, taken as
/// unsigned.
pub open spec fn release_time(r: Option<FlathubRelease>) -> Option<u64> {
    match r {
        Some(rel) => match rel.timestamp {
            Some(ts) => match crate::text::parse_i64(ts@) {
                Some(v) => Some(v as u64),
                None => None,
            },
            None => None,
        },
        None => None,
    }
}

/// The store metadata for Flathub metadata of the package `pkg_name`: Flathub's own id
/// when it gave one (so reviews work), else the package name; the first release's version
/// and time; `plain_description` is Flathub's description rendered as plain text.
pub fn flathub_to_app_metadata(flathub: &FlathubMetadata, pkg_name: &str, plain_description: Option<String>) -> (r: AppMetadata)
    ensures
        r.name@ == (match flathub.name {
            Some(n) => n@,
            None => pkg_name@,
        }),
        r.pkg_name matches Some(p) && p@ == pkg_name@,
        r.icon_url == flathub.icon,
        r.app_id@ == (match flathub.id {
            Some(i) => i@,
            None => pkg_name@,
        }),
        r.summary == flathub.summary,
        string_views(r.screenshots@) == screenshot_urls(flathub.screenshots@),
        opt_view(r.version) == (match first_release(flathub.releases) {
            Some(rel) => opt_view(rel.version),
            None => None,
        }),
        r.maintainer == flathub.developer_name,
        r.license == flathub.project_license,
        r.last_updated == release_time(first_release(flathub.releases)),
        r.description == plain_description,
        !r.is_local,
        r.installed is None,
{
    let app_id = match &flathub.id {
        Some(i) => i.clone(),
        None => String::from_str(pkg_name),
    };
    let name = match &flathub.name {
        Some(n) => n.clone(),
        None => String::from_str(pkg_name),
    };
    let first: Option<&FlathubRelease> = match &flathub.releases {
        Some(v) => if v.len() > 0 {
            Some(&v[0])
        } else {
            None
        },
        None => None,
    };
    let version = match first {
        Some(rel) => match &rel.version {
            Some(v) => Some(v.clone()),
            None => None,
        },
        None => None,
    };
    let last_updated = match first {
        Some(rel) => match &rel.timestamp {
            Some(ts) => {
                let tc = chars_of(ts.as_str());
                match crate::text::parse_i64_chars(tc.as_slice()) {
                    Some(v) => Some(v as u64),
                    None => None,
                }
            },
            None => None,
        },
        None => None,
    };
    AppMetadata {
        name,
        pkg_name: Some(String::from_str(pkg_name)),
        icon_url: flathub.icon.clone(),
        app_id,
        summary: flathub.summary.clone(),
        screenshots: screenshot_urls_from_flathub(&flathub.screenshots),
        version,
        maintainer: flathub.developer_name.clone(),
        license: flathub.project_license.clone(),
        last_updated,
        description: plain_description,
        is_local: false,
        installed: None,
    }
}

/// The caches of the Flathub client: metadata per app id, app id per package name, and
/// search results per query.
pub struct FlathubApiClient {
    pub cache: Vec<(String, Option<FlathubMetadata>)>,
    pub mapping_cache: Vec<(String, Option<String>)>,
    pub search_cache: Vec<(String, Option<Vec<SearchResult>>)>,
}

/// Each key of a cache occurs once.
pub open spec fn keys_once<V>(entries: Seq<(String, V)>) -> bool {
    forall|i: int, j: int| 0 <= i < j < entries.len() ==> entries[i].0@ != entries[j].0@
}

impl FlathubApiClient {
    /// Every cache holds each key once, as the maps they stand for do.
    pub open spec fn well_formed(&self) -> bool {
        keys_once(self.cache@) && keys_once(self.mapping_cache@) && keys_once(self.search_cache@)
    }

    /// A client with empty metadata caches and the search cache loaded from disk
    /// (`loaded_search_cache`, empty when there was none).
    pub fn new(loaded_search_cache: Vec<(String, Option<Vec<SearchResult>>)>) -> (r: Self)
        ensures
            r.cache@.len() == 0,
            r.mapping_cache@.len() == 0,
            r.search_cache == loaded_search_cache,
            keys_once(loaded_search_cache@) ==> r.well_formed(),
    {
        FlathubApiClient {
            cache: Vec::new(),
            mapping_cache: Vec::new(),
            search_cache: loaded_search_cache,
        }
    }

    /// Empties all three caches.
    pub fn clear_cache(&mut self)
        ensures
            final(self).cache@.len() == 0,
            final(self).mapping_cache@.len() == 0,
            final(self).search_cache@.len() == 0,
            final(self).well_formed(),
    {
        self.cache.clear();
        self.mapping_cache.clear();
        self.search_cache.clear();
    }
}

/// The tab-separated fields of a line (`str::split('\t')`).
pub open spec fn tab_fields(line: Seq<char>) -> Seq<Seq<char>>
    decreases line.len(),
{
    let i = crate::text::index_of(line, '\t');
    if i >= line.len() {
        seq![line]
    } else {
        proof {
            crate::text::lemma_index_of_bound(line, '\t');
        }
        seq![line.take(i as int)] + tab_fields(line.skip(i + 1 as int))
    }
}

/// The installed applications that `flatpak list --app
/// --columns=application,name,version,description,origin` reports: one per line with at
/// least five tab-separated fields, each field trimmed.
pub open spec fn installed_flatpaks_of(ls: Seq<Seq<char>>) -> Seq<(Seq<char>, Seq<char>, Seq<char>, Seq<char>, Seq<char>)>
    decreases ls.len(),
{
    if ls.len() == 0 {
        Seq::empty()
    } else {
        let prev = installed_flatpaks_of(ls.drop_last());
        let f = tab_fields(ls.last());
        if f.len() >= 5 {
            prev.push((trim(f[0]), trim(f[1]), trim(f[2]), trim(f[3]), trim(f[4])))
        } else {
            prev
        }
    }
}

/// The fields of a Flatpak entry.
pub open spec fn flatpak_fields(f: InstalledFlatpak) -> (Seq<char>, Seq<char>, Seq<char>, Seq<char>, Seq<char>) {
    (f.app_id@, f.name@, f.version@, f.summary@, f.origin@)
}

pub(crate) fn split_tabs(line: &[char]) -> (r: Vec<Vec<char>>)
    ensures
        crate::text::views(r@) == tab_fields(line@),
{
    let mut acc: Vec<Vec<char>> = Vec::new();
    let mut i: usize = 0;
    let n = line.len();
    assert(line@.subrange(0, n as int) == line@);
    loop
        invariant
            n == line@.len(),
            0 <= i <= n,
            crate::text::views(acc@) + tab_fields(line@.subrange(i as int, n as int)) == tab_fields(
                line@,
            ),
        decreases n - i,
    {
        let ghost rest = line@.subrange(i as int, n as int);
        let mut j = i;
        while j < n && line[j] != '\t'
            invariant
                n == line@.len(),
                i <= j <= n,
                forall|m: int| i <= m < j ==> #[trigger] line@[m] != '\t',
            decreases n - j,
        {
            j += 1;
        }
        proof {
            assert forall|m: int| 0 <= m < j - i implies #[trigger] rest[m] != '\t' by {
                assert(rest[m] == line@[i + m]);
            }
            if j < n {
                assert(rest[j - i] == line@[j as int]);
            }
            crate::text::lemma_index_of_exact(rest, '\t', j - i);
        }
        let field = slice_copy(line, i, j);
        let ghost old_acc = acc@;
        acc.push(field);
        assert(crate::text::views(acc@) == crate::text::views(old_acc).push(field@));
        if j == n {
            assert(field@ == rest);
            assert(tab_fields(rest) == seq![rest]);
            return acc;
        }
        proof {
            assert(rest.take(j - i) == field@);
            assert(rest.skip(j - i + 1) == line@.subrange(j + 1, n as int));
            assert(tab_fields(rest) == seq![field@] + tab_fields(line@.subrange(j + 1, n as int)));
        }
        i = j + 1;
    }
}

/// The installed applications listed in the output of `flatpak list --app
/// --columns=application,name,version,description,origin`.
pub fn parse_installed_flatpaks(stdout: &str) -> (r: Vec<InstalledFlatpak>)
    ensures
        r@.map_values(|f: InstalledFlatpak| flatpak_fields(f)) == installed_flatpaks_of(
            crate::text::lines(stdout@),
        ),
{
    let cv = chars_of(stdout);
    let ls = crate::text::split_lines(cv.as_slice());
    let mut out: Vec<InstalledFlatpak> = Vec::new();
    let mut i: usize = 0;
    while i < ls.len()
        invariant
            0 <= i <= ls@.len(),
            crate::text::views(ls@) == crate::text::lines(cv@),
            out@.map_values(|f: InstalledFlatpak| flatpak_fields(f)) == installed_flatpaks_of(
                crate::text::views(ls@).take(i as int),
            ),
        decreases ls@.len() - i,
    {
        let ghost prefix = crate::text::views(ls@).take(i as int);
        let ghost next = crate::text::views(ls@).take(i + 1);
        assert(next.drop_last() == prefix);
        assert(next.last() == ls@[i as int]@);
        let f = split_tabs(ls[i].as_slice());
        if f.len() >= 5 {
            let a = crate::text::trim_chars(f[0].as_slice());
            let b = crate::text::trim_chars(f[1].as_slice());
            let c = crate::text::trim_chars(f[2].as_slice());
            let d = crate::text::trim_chars(f[3].as_slice());
            let e = crate::text::trim_chars(f[4].as_slice());
            let item = InstalledFlatpak {
                app_id: string_of(a.as_slice()),
                name: string_of(b.as_slice()),
                version: string_of(c.as_slice()),
                summary: string_of(d.as_slice()),
                origin: string_of(e.as_slice()),
            };
            let ghost old_out = out@;
            out.push(item);
            assert(out@.map_values(|f: InstalledFlatpak| flatpak_fields(f)) == old_out.map_values(
                |f: InstalledFlatpak| flatpak_fields(f),
            ).push(flatpak_fields(item)));
        }
        i += 1;
    }
    assert(crate::text::views(ls@).take(ls@.len() as int) == crate::text::views(ls@));
    out
}

} // verus!
