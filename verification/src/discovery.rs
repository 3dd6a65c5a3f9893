//! Discovery: featured package lists per category, the discovery cache, and the
//! curated fallbacks shown when live sources are unavailable.
use vstd::prelude::*;
use crate::models::{Package, PackageSource};
use crate::ranking::strs;
use crate::text::{
    chars_of, contains_string, eq_str, lower_chars, lowercase, string_of, string_views, trim,
    trim_chars,
};

verus! {

/// How long the discovery cache stays fresh (24 hours), in seconds.
pub const CACHE_TTL_SECONDS: u64 = 86400;

/// How long the essentials cache (remote featured lists) stays fresh (7 days), in seconds.
pub const ESSENTIALS_CACHE_TTL_SECS: u64 = 604800;

/// Cap on the combined essentials and featured discovery pool.
pub const COMBINED_ESSENTIALS_MAX: usize = 120;

/// The built-in featured package names for the category key `key` (the trimmed,
/// lower-cased category).
pub open spec fn featured_names_of(key: Seq<char>) -> Seq<Seq<char>> {
    if key == "games"@ || key == "game"@ {
        strs(seq!["steam", "lutris", "heroic-games-launcher-bin", "discord", "minecraft-launcher", "wine", "protonup-qt", "retroarch", "gamemode", "mangohud", "r2modman-bin", "prismlauncher"])
    } else if key == "internet"@ || key == "network"@ {
        strs(seq!["google-chrome", "firefox", "brave-bin", "discord", "telegram-desktop", "signal-desktop", "zoom", "thunderbird", "qbittorrent", "transmission-gtk", "filezilla", "anydesk-bin"])
    } else if key == "multimedia"@ || key == "audio"@ || key == "video"@ || key == "audiovideo"@ {
        strs(seq!["vlc", "obs-studio", "spotify", "gimp", "kdenlive", "blender", "audacity", "mpv", "inkscape", "handbrake", "ffmpeg", "krita"])
    } else if key == "graphics"@ {
        strs(seq!["gimp", "blender", "inkscape", "krita", "darktable", "rawtherapee", "digikam", "glaxnimate"])
    } else if key == "development"@ {
        strs(seq!["visual-studio-code-bin", "code", "git", "docker", "intellij-idea-community-edition", "pycharm-community-edition", "postman-bin", "sublime-text-4", "neovim", "vim", "cmake", "qtcreator"])
    } else if key == "office"@ {
        strs(seq!["libreoffice-fresh", "obsidian", "notion-app-electron", "evince", "onlyoffice-bin", "simple-scan", "typora", "joplin", "okular"])
    } else if key == "system"@ {
        strs(seq!["gparted", "timeshift", "bleachbit", "htop", "btop", "flatpak", "pacman", "virtualbox", "kvm", "qemu-full"])
    } else if key == "utility"@ || key == "utilities"@ {
        strs(seq!["calculator", "gnome-calculator", "gnome-disk-utility", "file-roller", "spectacle", "flameshot", "ark", "kate", "gedit", "nano", "speedtest-cli", "neofetch", "fastfetch", "tree", "ripgrep", "bat", "eza", "fd", "fzf", "alacritty", "kitty"])
    } else {
        Seq::empty()
    }
}

/// The built-in featured names, as literals, for the category key `k`.
pub fn featured_literals(k: &[char]) -> (r: &'static [&'static str])
    ensures
        strs(r@) == featured_names_of(k@),
{
    if eq_str(k, "games") || eq_str(k, "game") {
        &["steam", "lutris", "heroic-games-launcher-bin", "discord", "minecraft-launcher", "wine", "protonup-qt", "retroarch", "gamemode", "mangohud", "r2modman-bin", "prismlauncher"]
    } else if eq_str(k, "internet") || eq_str(k, "network") {
        &["google-chrome", "firefox", "brave-bin", "discord", "telegram-desktop", "signal-desktop", "zoom", "thunderbird", "qbittorrent", "transmission-gtk", "filezilla", "anydesk-bin"]
    } else if eq_str(k, "multimedia") || eq_str(k, "audio") || eq_str(k, "video") || eq_str(k, "audiovideo") {
        &["vlc", "obs-studio", "spotify", "gimp", "kdenlive", "blender", "audacity", "mpv", "inkscape", "handbrake", "ffmpeg", "krita"]
    } else if eq_str(k, "graphics") {
        &["gimp", "blender", "inkscape", "krita", "darktable", "rawtherapee", "digikam", "glaxnimate"]
    } else if eq_str(k, "development") {
        &["visual-studio-code-bin", "code", "git", "docker", "intellij-idea-community-edition", "pycharm-community-edition", "postman-bin", "sublime-text-4", "neovim", "vim", "cmake", "qtcreator"]
    } else if eq_str(k, "office") {
        &["libreoffice-fresh", "obsidian", "notion-app-electron", "evince", "onlyoffice-bin", "simple-scan", "typora", "joplin", "okular"]
    } else if eq_str(k, "system") {
        &["gparted", "timeshift", "bleachbit", "htop", "btop", "flatpak", "pacman", "virtualbox", "kvm", "qemu-full"]
    } else if eq_str(k, "utility") || eq_str(k, "utilities") {
        &["calculator", "gnome-calculator", "gnome-disk-utility", "file-roller", "spectacle", "flameshot", "ark", "kate", "gedit", "nano", "speedtest-cli", "neofetch", "fastfetch", "tree", "ripgrep", "bat", "eza", "fd", "fzf", "alacritty", "kitty"]
    } else {
        &[]
    }
}

/// The strings of a list of literals.
pub fn to_strings(a: &[&str]) -> (r: Vec<String>)
    ensures
        string_views(r@) == strs(a@),
{
    let mut out: Vec<String> = Vec::new();
    let mut i: usize = 0;
    while i < a.len()
        invariant
            0 <= i <= a@.len(),
            string_views(out@) == strs(a@.take(i as int)),
        decreases a@.len() - i,
    {
        out.push(String::from_str(a[i]));
        assert(strs(a@.take(i + 1)) == strs(a@.take(i as int)).push(a@[i as int]@));
        i += 1;
    }
    assert(a@.take(a@.len() as int) == a@);
    out
}

/// The canonical category key: the trimmed, lower-cased category with its synonyms
/// folded together.
pub open spec fn category_key_of(category: Seq<char>) -> Seq<char> {
    let k = lowercase(trim(category));
    if k == "games"@ || k == "game"@ {
        "game"@
    } else if k == "internet"@ || k == "network"@ {
        "network"@
    } else if k == "multimedia"@ || k == "audio"@ || k == "video"@ || k == "audiovideo"@ {
        "audiovideo"@
    } else if k == "graphics"@ {
        "graphics"@
    } else if k == "development"@ || k == "develop"@ {
        "development"@
    } else if k == "office"@ || k == "productivity"@ {
        "office"@
    } else if k == "system"@ {
        "system"@
    } else if k == "utility"@ || k == "utilities"@ {
        "utility"@
    } else {
        k
    }
}

/// The trimmed, lower-cased characters of `s`.
pub fn trimmed_lower(s: &str) -> (r: Vec<char>)
    ensures
        r@ == lowercase(trim(s@)),
{
    let t = crate::text::trim_str(s);
    lower_chars(t.as_str())
}

/// The canonical key of a lower-cased, trimmed category.
pub fn category_key_from_lowercased(k: &[char]) -> (r: String)
    ensures
        r@ == (if k@ == "games"@ || k@ == "game"@ {
            "game"@
        } else if k@ == "internet"@ || k@ == "network"@ {
            "network"@
        } else if k@ == "multimedia"@ || k@ == "audio"@ || k@ == "video"@ || k@ == "audiovideo"@ {
            "audiovideo"@
        } else if k@ == "graphics"@ {
            "graphics"@
        } else if k@ == "development"@ || k@ == "develop"@ {
            "development"@
        } else if k@ == "office"@ || k@ == "productivity"@ {
            "office"@
        } else if k@ == "system"@ {
            "system"@
        } else if k@ == "utility"@ || k@ == "utilities"@ {
            "utility"@
        } else {
            k@
        }),
{
    if eq_str(k, "games") || eq_str(k, "game") {
        String::from_str("game")
    } else if eq_str(k, "internet") || eq_str(k, "network") {
        String::from_str("network")
    } else if eq_str(k, "multimedia") || eq_str(k, "audio") || eq_str(k, "video") || eq_str(
        k,
        "audiovideo",
    ) {
        String::from_str("audiovideo")
    } else if eq_str(k, "graphics") {
        String::from_str("graphics")
    } else if eq_str(k, "development") || eq_str(k, "develop") {
        String::from_str("development")
    } else if eq_str(k, "office") || eq_str(k, "productivity") {
        String::from_str("office")
    } else if eq_str(k, "system") {
        String::from_str("system")
    } else if eq_str(k, "utility") || eq_str(k, "utilities") {
        String::from_str("utility")
    } else {
        string_of(k)
    }
}

/// The canonical key under which the essentials cache files a category's featured list.
pub fn normalize_category_key(category: &str) -> (r: String)
    ensures
        r@ == category_key_of(category@),
{
    let k = trimmed_lower(category);
    category_key_from_lowercased(k.as_slice())
}

/// The remote featured list to use from the essentials cache: the cached list for the
/// category when the cache (fetched at `fetched_at`, in seconds) is younger than its TTL
/// at `now` and the list is not empty.
pub fn featured_from_cache(fetched_at: u64, now: u64, list: Option<Vec<String>>) -> (r: Option<Vec<String>>)
    ensures
        r == (if now - fetched_at >= ESSENTIALS_CACHE_TTL_SECS as int {
            None
        } else {
            match list {
                Some(l) => if l@.len() == 0 {
                    None
                } else {
                    Some(l)
                },
                None => None,
            }
        }),
{
    let age = if now >= fetched_at {
        now - fetched_at
    } else {
        0
    };
    if age >= ESSENTIALS_CACHE_TTL_SECS {
        return None;
    }
    match list {
        Some(l) => if l.len() == 0 {
            None
        } else {
            Some(l)
        },
        None => None,
    }
}

/// The built-in featured names for a lower-cased, trimmed category.
pub fn featured_names_for_key(k: &[char]) -> (r: Vec<String>)
    ensures
        string_views(r@) == featured_names_of(k@),
{
    to_strings(featured_literals(k))
}

/// The featured package names of `category`: the fresh remote list `cached` from the
/// essentials cache when there is one, else the built-in list.
pub fn get_featured_names_for_category(category: &str, cached: Option<Vec<String>>) -> (r: Vec<
    String,
>)
    ensures
        match cached {
            Some(l) => r == l,
            None => string_views(r@) == featured_names_of(lowercase(trim(category@))),
        },
{
    match cached {
        Some(l) => l,
        None => {
            let k = trimmed_lower(category);
            featured_names_for_key(k.as_slice())
        },
    }
}

/// `acc` followed by the items of `s` that are not yet in it, each once, in order.
pub open spec fn push_new(acc: Seq<Seq<char>>, s: Seq<Seq<char>>) -> Seq<Seq<char>>
    decreases s.len(),
{
    if s.len() == 0 {
        acc
    } else {
        let a = push_new(acc, s.drop_last());
        if a.contains(s.last()) {
            a
        } else {
            a.push(s.last())
        }
    }
}

/// Appends to `acc` the strings of `s` that it does not hold yet.
pub fn append_new(acc: &mut Vec<String>, s: &Vec<String>)
    ensures
        string_views(final(acc)@) == push_new(string_views(old(acc)@), string_views(s@)),
{
    let ghost start = string_views(acc@);
    let mut i: usize = 0;
    while i < s.len()
        invariant
            0 <= i <= s@.len(),
            string_views(acc@) == push_new(start, string_views(s@).take(i as int)),
        decreases s@.len() - i,
    {
        let ghost prev = string_views(s@).take(i as int);
        let ghost next = string_views(s@).take(i + 1);
        assert(next.drop_last() == prev);
        assert(next.last() == s@[i as int]@);
        let c = chars_of(s[i].as_str());
        if !contains_string(acc, c.as_slice()) {
            let ghost old_acc = acc@;
            acc.push(s[i].clone());
            assert(string_views(acc@) == string_views(old_acc).push(s@[i as int]@));
        }
        i += 1;
    }
    assert(string_views(s@).take(s@.len() as int) == string_views(s@));
}

/// The category keys whose featured lists make up the combined discovery pool.
pub open spec fn featured_category_keys() -> Seq<Seq<char>> {
    strs(
        seq!["game", "network", "audiovideo", "graphics", "development", "office", "system", "utility"],
    )
}

/// The featured list used for the `i`-th category key: the remote list given for it, or
/// the built-in one.
pub open spec fn featured_list_for(cached: Seq<Option<Vec<String>>>, i: int) -> Seq<Seq<char>> {
    if i < cached.len() && cached[i] is Some {
        string_views(cached[i]->0@)
    } else {
        featured_names_of(featured_category_keys()[i])
    }
}

/// The pool after the first `n` category keys.
pub open spec fn all_featured_upto(cached: Seq<Option<Vec<String>>>, n: int) -> Seq<Seq<char>>
    decreases n,
{
    if n <= 0 {
        Seq::empty()
    } else {
        push_new(all_featured_upto(cached, n - 1), featured_list_for(cached, n - 1))
    }
}

/// Every featured package name across all categories, each once, in category order;
/// `cached[i]` is the fresh remote list for the `i`-th category key, if any.
pub fn get_all_featured_names(cached: &Vec<Option<Vec<String>>>) -> (r: Vec<String>)
    ensures
        string_views(r@) == all_featured_upto(cached@, 8),
{
    let keys: &[&str] = &[
        "game",
        "network",
        "audiovideo",
        "graphics",
        "development",
        "office",
        "system",
        "utility",
    ];
    assert(strs(keys@) == featured_category_keys());
    let mut out: Vec<String> = Vec::new();
    let mut i: usize = 0;
    while i < keys.len()
        invariant
            keys@.len() == 8,
            strs(keys@) == featured_category_keys(),
            0 <= i <= 8,
            string_views(out@) == all_featured_upto(cached@, i as int),
        decreases 8 - i,
    {
        if i < cached.len() && cached[i].is_some() {
            match &cached[i] {
                Some(l) => {
                    append_new(&mut out, l);
                },
                None => {},
            }
        } else {
            let k = chars_of(keys[i]);
            assert(k@ == featured_category_keys()[i as int]);
            let list = featured_names_for_key(k.as_slice());
            append_new(&mut out, &list);
        }
        i += 1;
    }
    out
}

/// The pool of essentials followed by the featured names not among them, capped at
/// `COMBINED_ESSENTIALS_MAX` names.
pub open spec fn merged_pool(list: Seq<Seq<char>>, featured: Seq<Seq<char>>) -> Seq<Seq<char>> {
    let all = push_new(list, featured);
    if all.len() <= COMBINED_ESSENTIALS_MAX {
        all
    } else {
        all.take(COMBINED_ESSENTIALS_MAX as int)
    }
}

/// Merges the resolved essentials `list` with all featured names `featured` into the
/// single discovery pool: the essentials first, then each featured name not yet present,
/// at most `COMBINED_ESSENTIALS_MAX` names.
pub fn merge_essentials_with_featured(list: Vec<String>, featured: &Vec<String>) -> (r: Vec<String>)
    ensures
        string_views(r@) == merged_pool(string_views(list@), string_views(featured@)),
{
    let mut all = list;
    append_new(&mut all, featured);
    if all.len() > COMBINED_ESSENTIALS_MAX {
        all.truncate(COMBINED_ESSENTIALS_MAX);
        assert(string_views(all@) =~= string_views(all@));
    }
    all
}

/// The curated essentials used when no remote or system list is available.
pub open spec fn default_essentials() -> Seq<Seq<char>> {
    strs(seq!["firefox", "librewolf-bin", "google-chrome", "thunderbird", "telegram-desktop", "signal-desktop", "discord", "newsflash", "libreoffice-fresh", "obsidian", "calibre", "simplenote-electron-bin", "okular", "foliate", "keepassxc", "gimp", "inkscape", "blender", "flameshot", "krita", "rawtherapee", "vlc", "audacity", "obs-studio", "handbrake", "strawberry", "easyeffects", "ardour", "visual-studio-code-bin", "git", "docker-desktop", "steam", "lutris", "heroic-games-launcher-bin", "timeshift", "bitwarden-bin", "gparted", "kdeconnect", "balena-etcher", "peazip-bin"])
}

/// The maximum number of essentials taken from any source.
pub const ESSENTIALS_MAX: usize = 40;

/// The built-in essentials list: the curated defaults (at most `ESSENTIALS_MAX`, each
/// once) and, when the CachyOS repository is enabled, CachyOS's own tools while room is
/// left.
pub fn builtin_essentials(cachyos_enabled: bool) -> (r: Vec<String>)
    ensures
        string_views(r@) == (if cachyos_enabled {
            cachy_extras(push_new(Seq::empty(), default_essentials().take(ESSENTIALS_MAX as int)))
        } else {
            push_new(Seq::empty(), default_essentials().take(ESSENTIALS_MAX as int))
        }),
{
    let defaults: &[&str] = &["firefox", "librewolf-bin", "google-chrome", "thunderbird", "telegram-desktop", "signal-desktop", "discord", "newsflash", "libreoffice-fresh", "obsidian", "calibre", "simplenote-electron-bin", "okular", "foliate", "keepassxc", "gimp", "inkscape", "blender", "flameshot", "krita", "rawtherapee", "vlc", "audacity", "obs-studio", "handbrake", "strawberry", "easyeffects", "ardour", "visual-studio-code-bin", "git", "docker-desktop", "steam", "lutris", "heroic-games-launcher-bin", "timeshift", "bitwarden-bin", "gparted", "kdeconnect", "balena-etcher", "peazip-bin"];
    assert(strs(defaults@) == default_essentials());
    let all = to_strings(defaults);
    let mut capped = all;
    capped.truncate(ESSENTIALS_MAX);
    assert(string_views(capped@) == default_essentials().take(ESSENTIALS_MAX as int));
    let mut unique: Vec<String> = Vec::new();
    assert(string_views(unique@) =~= Seq::<Seq<char>>::empty());
    append_new(&mut unique, &capped);
    assert(string_views(unique@) == push_new(
        Seq::empty(),
        default_essentials().take(ESSENTIALS_MAX as int),
    ));
    if cachyos_enabled {
        let extras: &[&str] = &["cachyos-settings", "linux-cachyos", "paru"];
        let mut i: usize = 0;
        let ghost base = string_views(unique@);
        while i < extras.len()
            invariant
                extras@.len() == 3,
                0 <= i <= 3,
                string_views(unique@) == cachy_extras_upto(base, strs(extras@), i as int),
            decreases 3 - i,
        {
            let c = chars_of(extras[i]);
            if !contains_string(&unique, c.as_slice()) && unique.len() < ESSENTIALS_MAX {
                let ghost old_u = unique@;
                unique.push(String::from_str(extras[i]));
                assert(string_views(unique@) == string_views(old_u).push(extras@[i as int]@));
            }
            i += 1;
        }
        assert(strs(extras@) == strs(seq!["cachyos-settings", "linux-cachyos", "paru"]));
    }
    unique
}

/// `base` extended with the extras `extras[..n]` that are new, while it holds fewer than
/// `ESSENTIALS_MAX` names.
pub open spec fn cachy_extras_upto(base: Seq<Seq<char>>, extras: Seq<Seq<char>>, n: int) -> Seq<
    Seq<char>,
>
    decreases n,
{
    if n <= 0 {
        base
    } else {
        let prev = cachy_extras_upto(base, extras, n - 1);
        let x = extras[n - 1];
        if !prev.contains(x) && prev.len() < ESSENTIALS_MAX {
            prev.push(x)
        } else {
            prev
        }
    }
}

/// `base` extended with CachyOS's tools.
pub open spec fn cachy_extras(base: Seq<Seq<char>>) -> Seq<Seq<char>> {
    cachy_extras_upto(base, strs(seq!["cachyos-settings", "linux-cachyos", "paru"]), 3)
}

/// The lines of a system essentials override file: each line trimmed, empty lines and
/// `#` comments dropped, at most `ESSENTIALS_MAX` names.
pub open spec fn override_names(ls: Seq<Seq<char>>) -> Seq<Seq<char>>
    decreases ls.len(),
{
    if ls.len() == 0 {
        Seq::empty()
    } else {
        let prev = override_names(ls.drop_last());
        let t = trim(ls.last());
        if t.len() == 0 || t[0] == '#' {
            prev
        } else {
            prev.push(t)
        }
    }
}

/// The essentials named by a system override file with text `content`: its trimmed lines
/// that are neither empty nor comments, at most `ESSENTIALS_MAX` of them.
pub fn essentials_override_lines(content: &str) -> (r: Vec<String>)
    ensures
        string_views(r@) == (if override_names(crate::text::lines(content@)).len()
            <= ESSENTIALS_MAX {
            override_names(crate::text::lines(content@))
        } else {
            override_names(crate::text::lines(content@)).take(ESSENTIALS_MAX as int)
        }),
{
    let cv = chars_of(content);
    let ls = crate::text::split_lines(cv.as_slice());
    let mut out: Vec<String> = Vec::new();
    let mut i: usize = 0;
    while i < ls.len()
        invariant
            0 <= i <= ls@.len(),
            crate::text::views(ls@) == crate::text::lines(cv@),
            string_views(out@) == override_names(crate::text::views(ls@).take(i as int)),
        decreases ls@.len() - i,
    {
        let ghost prefix = crate::text::views(ls@).take(i as int);
        let ghost next = crate::text::views(ls@).take(i + 1);
        assert(next.drop_last() == prefix);
        assert(next.last() == ls@[i as int]@);
        let t = trim_chars(ls[i].as_slice());
        if t.len() != 0 && t[0] != '#' {
            let ghost old_out = out@;
            out.push(string_of(t.as_slice()));
            assert(string_views(out@) == string_views(old_out).push(t@));
        }
        i += 1;
    }
    assert(crate::text::views(ls@).take(ls@.len() as int) == crate::text::views(ls@));
    if out.len() > ESSENTIALS_MAX {
        out.truncate(ESSENTIALS_MAX);
    }
    out
}

/// `push_new` keeps what was there in front, adds every new item, and adds nothing twice.
pub proof fn lemma_push_new(acc: Seq<Seq<char>>, s: Seq<Seq<char>>)
    ensures
        push_new(acc, s).len() >= acc.len(),
        push_new(acc, s).take(acc.len() as int) == acc,
        forall|x: Seq<char>| push_new(acc, s).contains(x) <==> (acc.contains(x) || s.contains(x)),
        acc.no_duplicates() ==> push_new(acc, s).no_duplicates(),
    decreases s.len(),
{
    if s.len() > 0 {
        lemma_push_new(acc, s.drop_last());
        let a = push_new(acc, s.drop_last());
        let x = s.last();
        assert forall|y: Seq<char>| s.contains(y) <==> (s.drop_last().contains(y) || y == x) by {
            if s.contains(y) {
                let k = choose|k: int| 0 <= k < s.len() && s[k] == y;
                if k < s.len() - 1 {
                    assert(s.drop_last()[k] == y);
                }
            }
            if s.drop_last().contains(y) {
                let k = choose|k: int| 0 <= k < s.drop_last().len() && s.drop_last()[k] == y;
                assert(s[k] == y);
            }
            if y == x {
                assert(s[s.len() - 1] == y);
            }
        }
        if !a.contains(x) {
            assert(a.push(x).take(acc.len() as int) == a.take(acc.len() as int));
            assert forall|y: Seq<char>| a.push(x).contains(y) <==> (a.contains(y) || y == x) by {
                if a.push(x).contains(y) {
                    let k = choose|k: int| 0 <= k < a.push(x).len() && a.push(x)[k] == y;
                    if k < a.len() {
                        assert(a[k] == y);
                    }
                }
                if a.contains(y) {
                    let k = choose|k: int| 0 <= k < a.len() && a[k] == y;
                    assert(a.push(x)[k] == y);
                }
                if y == x {
                    assert(a.push(x)[a.len() as int] == y);
                }
            }
            if a.no_duplicates() {
                assert forall|i: int, j: int|
                    0 <= i < a.push(x).len() && 0 <= j < a.push(x).len() && i != j implies a.push(
                    x,
                )[i] != a.push(x)[j] by {
                    if i == a.len() {
                        assert(a.push(x)[j] == a[j]);
                    } else if j == a.len() {
                        assert(a.push(x)[i] == a[i]);
                    }
                }
            }
        }
    }
}

/// The combined discovery pool repeats no name when the essentials repeat none, keeps the
/// essentials in front, and is never longer than its cap.
pub proof fn law_merged_pool_shape(list: Seq<Seq<char>>, featured: Seq<Seq<char>>)
    requires
        list.no_duplicates(),
    ensures
        merged_pool(list, featured).no_duplicates(),
        merged_pool(list, featured).len() <= COMBINED_ESSENTIALS_MAX,
        list.len() <= COMBINED_ESSENTIALS_MAX ==> merged_pool(list, featured).take(
            list.len() as int,
        ) == list,
{
    lemma_push_new(list, featured);
    let all = push_new(list, featured);
    if all.len() > COMBINED_ESSENTIALS_MAX {
        let t = all.take(COMBINED_ESSENTIALS_MAX as int);
        assert forall|i: int, j: int| 0 <= i < t.len() && 0 <= j < t.len() && i != j implies t[i]
            != t[j] by {
            assert(t[i] == all[i] && t[j] == all[j]);
        }
        if list.len() <= COMBINED_ESSENTIALS_MAX {
            assert(t.take(list.len() as int) =~= all.take(list.len() as int));
        }
    }
}

/// The pool of featured names across all categories repeats no name and is exactly the
/// union of the categories' lists: it holds every name of every list, and nothing else.
pub proof fn law_all_featured_unique_and_complete(cached: Seq<Option<Vec<String>>>, n: int)
    requires
        0 <= n <= 8,
    ensures
        all_featured_upto(cached, n).no_duplicates(),
        forall|i: int, x: Seq<char>|
            0 <= i < n && #[trigger] featured_list_for(cached, i).contains(x) ==> all_featured_upto(
                cached,
                n,
            ).contains(x),
        forall|x: Seq<char>|
            #[trigger] all_featured_upto(cached, n).contains(x) ==> exists|i: int|
                0 <= i < n && #[trigger] featured_list_for(cached, i).contains(x),
    decreases n,
{
    if n > 0 {
        law_all_featured_unique_and_complete(cached, n - 1);
        lemma_push_new(all_featured_upto(cached, n - 1), featured_list_for(cached, n - 1));
        assert forall|x: Seq<char>| #[trigger] all_featured_upto(cached, n).contains(x) implies exists|i: int|
            0 <= i < n && #[trigger] featured_list_for(cached, i).contains(x) by {
            if !all_featured_upto(cached, n - 1).contains(x) {
                assert(featured_list_for(cached, n - 1).contains(x));
            }
        }
    } else {
        assert(all_featured_upto(cached, 0) =~= Seq::<Seq<char>>::empty());
    }
}

/// Whether a cache fetched at `fetched_at` is stale at `now` (both in seconds): older than
/// `CACHE_TTL_SECONDS`.
pub fn is_cache_stale(fetched_at: u64, now: u64) -> (r: bool)
    ensures
        r == (now > fetched_at + CACHE_TTL_SECONDS),
{
    if fetched_at > u64::MAX - CACHE_TTL_SECONDS {
        false
    } else {
        now > fetched_at + CACHE_TTL_SECONDS
    }
}

/// The key of the default (featured, all sources) snapshot of a category.
pub fn default_category_cache_key(category: &str) -> (r: String)
    ensures
        r@ == "cat:"@ + category@ + "::featured:ftrue:atrue:ctrue:ifalse:v8"@,
{
    let a = chars_of("cat:");
    let b = crate::text::concat_str(a.as_slice(), category);
    let c = crate::text::concat_str(b.as_slice(), "::featured:ftrue:atrue:ctrue:ifalse:v8");
    string_of(c.as_slice())
}

/// The hard-coded discovery names for `kind`: the essentials set or the trending set.
pub open spec fn discovery_names_of(kind: Seq<char>) -> Seq<Seq<char>> {
    if kind == "essentials"@ {
        strs(
            seq!["firefox", "libreoffice-fresh", "vlc", "thunderbird", "gimp", "steam", "discord", "obs-studio", "krita", "kate"],
        )
    } else {
        strs(
            seq!["firefox", "google-chrome", "chromium", "steam", "discord", "obs-studio", "vlc", "spotify", "gimp", "kdenlive"],
        )
    }
}

/// The last-resort discovery names for `kind` ("essentials" or anything else for
/// trending).
pub fn hardcoded_discovery_names(kind: &str) -> (r: Vec<String>)
    ensures
        string_views(r@) == discovery_names_of(kind@),
{
    let k = chars_of(kind);
    if eq_str(k.as_slice(), "essentials") {
        to_strings(
            &[
                "firefox",
                "libreoffice-fresh",
                "vlc",
                "thunderbird",
                "gimp",
                "steam",
                "discord",
                "obs-studio",
                "krita",
                "kate",
            ],
        )
    } else {
        to_strings(
            &[
                "firefox",
                "google-chrome",
                "chromium",
                "steam",
                "discord",
                "obs-studio",
                "vlc",
                "spotify",
                "gimp",
                "kdenlive",
            ],
        )
    }
}

/// A quick-start entry of the discovery home: a search query or a category to open.
#[derive(Debug, Clone)]
pub struct DiscoveryIntent {
    pub id: String,
    pub label: String,
    pub description: String,
    pub query: Option<String>,
    pub category: Option<String>,
}

/// `r` is the quick start with these fields.
pub open spec fn intent_is(r: DiscoveryIntent, id: Seq<char>, label: Seq<char>, description: Seq<char>, query: Option<Seq<char>>, category: Option<Seq<char>>) -> bool {
    &&& r.id@ == id
    &&& r.label@ == label
    &&& r.description@ == description
    &&& match r.query {
        Some(x) => query == Some(x@),
        None => query is None,
    }
    &&& match r.category {
        Some(x) => category == Some(x@),
        None => category is None,
    }
}

fn intent(id: &str, label: &str, description: &str, query: Option<&str>, category: Option<&str>) -> (r: DiscoveryIntent)
    ensures
        intent_is(
            r,
            id@,
            label@,
            description@,
            match query {
                Some(q) => Some(q@),
                None => None,
            },
            match category {
                Some(c) => Some(c@),
                None => None,
            },
        ),
{
    DiscoveryIntent {
        id: String::from_str(id),
        label: String::from_str(label),
        description: String::from_str(description),
        query: match query {
            Some(q) => Some(String::from_str(q)),
            None => None,
        },
        category: match category {
            Some(c) => Some(String::from_str(c)),
            None => None,
        },
    }
}

/// The six quick starts of the discovery home, in display order.
pub fn build_quick_starts() -> (r: Vec<DiscoveryIntent>)
    ensures
        r@.len() == 6,
        intent_is(r@[0], "web-browsers"@, "Web Browsers"@, "Find browsers and internet apps"@, Some("browser"@), None),
        intent_is(r@[1], "office-school"@, "Office & School"@, "Documents, mail, and study tools"@, Some("office suite"@), None),
        intent_is(r@[2], "gaming"@, "Gaming"@, "Launchers, emulators, and game clients"@, None, Some("Game"@)),
        intent_is(r@[3], "chat-voice"@, "Chat & Voice"@, "Messaging and voice apps"@, Some("discord telegram"@), None),
        intent_is(r@[4], "creative-tools"@, "Creative Tools"@, "Art, design, and editing apps"@, None, Some("Graphics"@)),
        intent_is(r@[5], "system-utilities"@, "System Utilities"@, "Maintenance and system tools"@, None, Some("System"@)),
{
    let mut v: Vec<DiscoveryIntent> = Vec::new();
    v.push(intent("web-browsers", "Web Browsers", "Find browsers and internet apps", Some("browser"), None));
    v.push(intent("office-school", "Office & School", "Documents, mail, and study tools", Some("office suite"), None));
    v.push(intent("gaming", "Gaming", "Launchers, emulators, and game clients", None, Some("Game")));
    v.push(intent("chat-voice", "Chat & Voice", "Messaging and voice apps", Some("discord telegram"), None));
    v.push(intent("creative-tools", "Creative Tools", "Art, design, and editing apps", None, Some("Graphics")));
    v.push(intent("system-utilities", "System Utilities", "Maintenance and system tools", None, Some("System")));
    v
}

/// A popular Flathub application.
#[derive(Debug, Clone)]
pub struct FlathubPopularHit {
    pub app_id: String,
    pub name: String,
    pub summary: Option<String>,
    pub icon: Option<String>,
}

/// The discovery cache: popular AUR packages, recent Flathub applications, and when they
/// were fetched (seconds since the epoch).
#[derive(Debug, Clone)]
pub struct DiscoveryCache {
    pub aur_packages: Vec<Package>,
    pub flathub_hits: Vec<FlathubPopularHit>,
    pub fetched_at: u64,
}

/// The Flatpak source from Flathub, as used for discovery entries.
pub open spec fn is_flathub_source(s: PackageSource) -> bool {
    s.source_type@ == "flatpak"@ && s.id@ == "flathub"@ && s.version@ == "latest"@ && s.label@
        == "Flatpak (Sandboxed)"@ && s.package_name is None
}

/// The store package for a popular Flathub application: named by its app id, displayed
/// by its name, described by its summary, version "latest", from Flathub.
pub fn flathub_hit_to_package(h: &FlathubPopularHit) -> (r: Package)
    ensures
        r.name@ == h.app_id@,
        r.display_name matches Some(d) && d@ == h.name@,
        r.description@ == (match h.summary {
            Some(s) => s@,
            None => Seq::empty(),
        }),
        r.version@ == "latest"@,
        is_flathub_source(r.source),
        r.app_id matches Some(a) && a@ == h.app_id@,
        r.icon == h.icon,
        r.available_sources matches Some(v) && v@.len() == 1 && is_flathub_source(v@[0]),
        !r.installed,
        r.keywords is None,
        r.canonical_id@ == Seq::<char>::empty(),
        r.is_featured is None,
        r.maintainer is None,
        r.url is None,
{
    let description = match &h.summary {
        Some(s) => s.clone(),
        None => String::new(),
    };
    let mut sources: Vec<PackageSource> = Vec::new();
    sources.push(PackageSource::new("flatpak", "flathub", "latest", "Flatpak (Sandboxed)"));
    Package {
        name: h.app_id.clone(),
        display_name: Some(h.name.clone()),
        description,
        version: String::from_str("latest"),
        source: PackageSource::new("flatpak", "flathub", "latest", "Flatpak (Sandboxed)"),
        installed: false,
        app_id: Some(h.app_id.clone()),
        icon: h.icon.clone(),
        keywords: None,
        canonical_id: String::new(),
        available_sources: Some(sources),
        is_featured: None,
        maintainer: None,
        url: None,
    }
}

} // verus!
