//! The first-generation search helpers: name normalization, distribution-aware repository
//! labels, a simpler relevance score, and the featured lists per category.
use vstd::prelude::*;
use crate::discovery::featured_names_of;
use crate::models::Package;
use crate::ranking::{
    lowered_keywords, opt_chars, opt_lower, or_empty, relevance_of_lowercased, strs, vec_views,
};
use crate::text::{
    chars_of, contains, contains_chars, eq, eq_str, is_prefix, lower_chars, lowercase,
    matches_at, string_views, trim,
};

verus! {

/// A page of packages.
#[derive(Debug, Clone)]
pub struct PaginatedResponse {
    pub packages: Vec<Package>,
    pub total: usize,
    pub page: usize,
    pub has_more: bool,
}

/// The key under which names are merged: trimmed and lower-cased.
pub fn normalize_name(s: &str) -> (r: String)
    ensures
        r@ == lowercase(trim(s@)),
{
    let t = crate::text::trim_str(s);
    crate::text::to_lowercase(t.as_str())
}

/// The label of the repository `db` on the distribution `distro`: Arch's own repositories
/// are named after the distribution that uses them.
pub open spec fn distro_label(db: Seq<char>, distro: Seq<char>) -> Seq<char> {
    if db == "core"@ || db == "extra"@ || db == "multilib"@ {
        if distro == "manjaro"@ {
            "Manjaro Official"@
        } else if distro == "endeavouros"@ {
            "EndeavourOS (Arch)"@
        } else if distro == "garuda"@ {
            "Garuda (Arch)"@
        } else if distro == "cachyos"@ {
            "CachyOS (Arch)"@
        } else if distro == "steamos"@ {
            "SteamOS (Arch)"@
        } else if distro == "chimeraos"@ {
            "ChimeraOS (Arch)"@
        } else if distro == "arcolinux"@ {
            "ArcoLinux (Arch)"@
        } else if distro == "rebornos"@ {
            "RebornOS (Arch)"@
        } else if distro == "artix"@ {
            "Artix Linux"@
        } else if distro == "biglinux"@ {
            "BigLinux (Arch)"@
        } else if distro == "mabox"@ {
            "Mabox (Manjaro Base)"@
        } else {
            "Arch Official"@
        }
    } else if db == "jupiter"@ || db == "jupiter-rel"@ || db == "jupiter-main"@ {
        "SteamOS (Jupiter)"@
    } else if db == "holo"@ || db == "holo-rel"@ || db == "holo-main"@ {
        "SteamOS (Holo)"@
    } else if db == "chimeraos"@ || db == "chimeraos-extra"@ {
        "ChimeraOS (Gaming)"@
    } else if db == "gamer-os"@ {
        "GamerOS"@
    } else if db == "cachyos"@ || db == "cachyos-v3"@ || db == "cachyos-v4"@ {
        "CachyOS (Optimized)"@
    } else if db == "chaotic-aur"@ {
        "Chaotic-AUR (Pre-built)"@
    } else if db == "endeavouros"@ {
        "EndeavourOS Tools"@
    } else if db == "garuda"@ {
        "Garuda Tools"@
    } else if db == "arcolinux_repo"@ || db == "arcolinux_repo_3party"@ {
        "ArcoLinux Repo"@
    } else if db == "rebornos"@ {
        "RebornOS Repo"@
    } else if db == "blackarch"@ {
        "BlackArch (Security)"@
    } else if db == "xerolinux_repo"@ {
        "XeroLinux Repo"@
    } else if db == "mabox"@ {
        "Mabox Tools"@
    } else if db == "alg-repo"@ {
        "ArchLabs"@
    } else if db == "athena"@ {
        "Athena OS"@
    } else if db == "biglinux-stable"@ || db == "biglinux-testing"@ {
        "BigLinux Repo"@
    } else if db == "bluestar"@ {
        "Bluestar Linux"@
    } else if db == "obarun"@ {
        "Obarun"@
    } else if db == "parabola"@ {
        "Parabola (Libre)"@
    } else if db == "hyperbola"@ {
        "Hyperbola"@
    } else if db == "ctlos"@ {
        "CtlOS"@
    } else if db == "alci-repo"@ {
        "ALCI"@
    } else if db == "aur"@ {
        "AUR (Community)"@
    } else if db == "flatpak"@ {
        "Flatpak (Sandboxed)"@
    } else {
        "Custom Repository"@
    }
}

fn official_label(d: &[char]) -> (r: &'static str)
    ensures
        r@ == distro_label("core"@, d@),
{
    if eq_str(d, "manjaro") {
        "Manjaro Official"
    } else if eq_str(d, "endeavouros") {
        "EndeavourOS (Arch)"
    } else if eq_str(d, "garuda") {
        "Garuda (Arch)"
    } else if eq_str(d, "cachyos") {
        "CachyOS (Arch)"
    } else if eq_str(d, "steamos") {
        "SteamOS (Arch)"
    } else if eq_str(d, "chimeraos") {
        "ChimeraOS (Arch)"
    } else if eq_str(d, "arcolinux") {
        "ArcoLinux (Arch)"
    } else if eq_str(d, "rebornos") {
        "RebornOS (Arch)"
    } else if eq_str(d, "artix") {
        "Artix Linux"
    } else if eq_str(d, "biglinux") {
        "BigLinux (Arch)"
    } else if eq_str(d, "mabox") {
        "Mabox (Manjaro Base)"
    } else {
        "Arch Official"
    }
}

/// The label of the repository `db_name` on the distribution `distro_id`.
pub fn get_friendly_label(db_name: &str, distro_id: &str) -> (r: &'static str)
    ensures
        r@ == distro_label(db_name@, distro_id@),
{
    let b = chars_of(db_name);
    let b = b.as_slice();
    let d = chars_of(distro_id);
    if eq_str(b, "core") || eq_str(b, "extra") || eq_str(b, "multilib") {
        official_label(d.as_slice())
    } else if eq_str(b, "jupiter") || eq_str(b, "jupiter-rel") || eq_str(b, "jupiter-main") {
        "SteamOS (Jupiter)"
    } else if eq_str(b, "holo") || eq_str(b, "holo-rel") || eq_str(b, "holo-main") {
        "SteamOS (Holo)"
    } else if eq_str(b, "chimeraos") || eq_str(b, "chimeraos-extra") {
        "ChimeraOS (Gaming)"
    } else if eq_str(b, "gamer-os") {
        "GamerOS"
    } else if eq_str(b, "cachyos") || eq_str(b, "cachyos-v3") || eq_str(b, "cachyos-v4") {
        "CachyOS (Optimized)"
    } else if eq_str(b, "chaotic-aur") {
        "Chaotic-AUR (Pre-built)"
    } else if eq_str(b, "endeavouros") {
        "EndeavourOS Tools"
    } else if eq_str(b, "garuda") {
        "Garuda Tools"
    } else if eq_str(b, "arcolinux_repo") || eq_str(b, "arcolinux_repo_3party") {
        "ArcoLinux Repo"
    } else if eq_str(b, "rebornos") {
        "RebornOS Repo"
    } else if eq_str(b, "blackarch") {
        "BlackArch (Security)"
    } else if eq_str(b, "xerolinux_repo") {
        "XeroLinux Repo"
    } else if eq_str(b, "mabox") {
        "Mabox Tools"
    } else if eq_str(b, "alg-repo") {
        "ArchLabs"
    } else if eq_str(b, "athena") {
        "Athena OS"
    } else if eq_str(b, "biglinux-stable") || eq_str(b, "biglinux-testing") {
        "BigLinux Repo"
    } else if eq_str(b, "bluestar") {
        "Bluestar Linux"
    } else if eq_str(b, "obarun") {
        "Obarun"
    } else if eq_str(b, "parabola") {
        "Parabola (Libre)"
    } else if eq_str(b, "hyperbola") {
        "Hyperbola"
    } else if eq_str(b, "ctlos") {
        "CtlOS"
    } else if eq_str(b, "alci-repo") {
        "ALCI"
    } else if eq_str(b, "aur") {
        "AUR (Community)"
    } else if eq_str(b, "flatpak") {
        "Flatpak (Sandboxed)"
    } else {
        "Custom Repository"
    }
}

/// The first-generation relevance: 100 for an exact name or friendly name, 95 for a
/// friendly name containing a query of 3 bytes or more, 90 for an exact app id, 80 for a
/// matching popular package, 50 for a name starting with the query, 20 for any other
/// match (name, display name or keyword), else 0.
pub open spec fn simple_relevance(name: Seq<char>, display: Option<Seq<char>>, friendly: Option<Seq<char>>, app_id: Option<Seq<char>>, keywords: Seq<Seq<char>>, q: Seq<char>, q_bytes: int, popular: Seq<Seq<char>>) -> int {
    let matches_query = contains(name, q) || contains(or_empty(display), q) || (exists|k: int|
        0 <= k < keywords.len() && contains(keywords[k], q));
    if name == q {
        100
    } else if friendly matches Some(f) && f == q {
        100
    } else if friendly matches Some(f) && contains(f, q) && q_bytes >= 3 {
        95
    } else if app_id == Some(q) {
        90
    } else if popular.contains(name) && matches_query {
        80
    } else if is_prefix(q, name) {
        50
    } else if matches_query {
        20
    } else {
        0
    }
}

/// The first-generation relevance of `pkg` to the lower-cased query `query`, with the
/// friendly name from the AppStream metadata and the names of popular packages.
pub fn calculate_relevance(pkg: &Package, query: &str, friendly_name: Option<&str>, popular_apps: &Vec<&str>) -> (r: u32)
    ensures
        r as int == simple_relevance(
            lowercase(pkg.name@),
            opt_lower(pkg.display_name),
            match friendly_name {
                Some(f) => Some(lowercase(f@)),
                None => None,
            },
            opt_lower(pkg.app_id),
            lowered_keywords(pkg.keywords),
            query@,
            query.len() as int,
            strs(popular_apps@),
        ),
{
    let name = lower_chars(pkg.name.as_str());
    let q = chars_of(query);
    let q = q.as_slice();
    if eq(name.as_slice(), q) {
        return 100;
    }
    match friendly_name {
        Some(f) => {
            let fl = lower_chars(f);
            if eq(fl.as_slice(), q) {
                return 100;
            }
            if contains_chars(fl.as_slice(), q) && query.len() >= 3 {
                return 95;
            }
        },
        None => {},
    }
    match &pkg.app_id {
        Some(a) => {
            let al = lower_chars(a.as_str());
            if eq(al.as_slice(), q) {
                return 90;
            }
        },
        None => {},
    }
    let mut is_popular = false;
    let mut i: usize = 0;
    while i < popular_apps.len()
        invariant
            0 <= i <= popular_apps@.len(),
            is_popular == exists|k: int| 0 <= k < i && strs(popular_apps@)[k] == name@,
        decreases popular_apps@.len() - i,
    {
        let p = chars_of(popular_apps[i]);
        assert(strs(popular_apps@)[i as int] == p@);
        if eq(p.as_slice(), name.as_slice()) {
            is_popular = true;
        }
        i += 1;
    }
    let display_match = match &pkg.display_name {
        Some(d) => {
            let dl = lower_chars(d.as_str());
            contains_chars(dl.as_slice(), q)
        },
        None => {
            let e: Vec<char> = Vec::new();
            assert(e@ == Seq::<char>::empty());
            contains_chars(e.as_slice(), q)
        },
    };
    let mut kw_match = false;
    match &pkg.keywords {
        Some(k) => {
            let mut j: usize = 0;
            while j < k.len()
                invariant
                    0 <= j <= k@.len(),
                    lowered_keywords(pkg.keywords) == k@.map_values(|s: String| lowercase(s@)),
                    kw_match == exists|m: int|
                        0 <= m < j && contains(lowered_keywords(pkg.keywords)[m], q@),
                decreases k@.len() - j,
            {
                let kl = lower_chars(k[j].as_str());
                assert(lowered_keywords(pkg.keywords)[j as int] == kl@);
                if contains_chars(kl.as_slice(), q) {
                    kw_match = true;
                }
                j += 1;
            }
        },
        None => {},
    }
    let matches_query = contains_chars(name.as_slice(), q) || display_match || kw_match;
    if is_popular && matches_query {
        return 80;
    }
    if matches_at(name.as_slice(), q, 0) {
        return 50;
    }
    if matches_query {
        return 20;
    }
    0
}

/// The built-in featured package names of `category` (trimmed and lower-cased; games,
/// internet, multimedia, graphics, development, office, system and utility, with their
/// synonyms); none for other categories.
pub fn get_featured_apps(category: &str) -> (r: Vec<&'static str>)
    ensures
        strs(r@) == featured_names_of(lowercase(trim(category@))),
{
    let k = crate::discovery::trimmed_lower(category);
    let lits = crate::discovery::featured_literals(k.as_slice());
    let mut out: Vec<&'static str> = Vec::new();
    let mut i: usize = 0;
    while i < lits.len()
        invariant
            0 <= i <= lits@.len(),
            out@ == lits@.take(i as int),
        decreases lits@.len() - i,
    {
        out.push(lits[i]);
        assert(out@ == lits@.take(i + 1));
        i += 1;
    }
    assert(lits@.take(lits@.len() as int) == lits@);
    out
}

} // verus!
