//! Friendly labels for repository names, across the Arch-based distributions.
//!
//! `core`, `extra`, `community` and `multilib` are Arch's official repositories; any
//! repository whose name starts with `cachyos` is CachyOS's optimized build.
use vstd::prelude::*;
use crate::text::{chars_of, eq_str, is_prefix, starts_with};

verus! {

/// The label shown for the repository `db`.
pub open spec fn friendly_label(db: Seq<char>) -> Seq<char> {
    if db == "core"@ || db == "extra"@ || db == "community"@ || db == "multilib"@ {
        "Arch Official"@
    } else if db == "jupiter"@ || db == "jupiter-rel"@ || db == "jupiter-main"@ {
        "SteamOS (Jupiter)"@
    } else if db == "holo"@ || db == "holo-rel"@ || db == "holo-main"@ {
        "SteamOS (Holo)"@
    } else if db == "chimeraos"@ || db == "chimeraos-extra"@ {
        "ChimeraOS (Gaming)"@
    } else if db == "gamer-os"@ {
        "GamerOS"@
    } else if is_prefix("cachyos"@, db) {
        "CachyOS (Optimized)"@
    } else if db == "chaotic-aur"@ || is_prefix("chaotic"@, db) {
        "Chaotic-AUR (Pre-built)"@
    } else if is_prefix("manjaro"@, db) {
        "Manjaro"@
    } else if is_prefix("garuda"@, db) {
        "Garuda Tools"@
    } else if is_prefix("endeavour"@, db) {
        "EndeavourOS Tools"@
    } else if db == "arcolinux_repo"@ || db == "arcolinux_repo_3party"@ {
        "ArcoLinux Repo"@
    } else if db == "rebornos"@ {
        "RebornOS Repo"@
    } else if db == "blackarch"@ {
        "BlackArch (Security)"@
    } else if db == "xerolinux_repo"@ {
        "XeroLinux Repo"@
    } else if db == "mabox"@ {
        "Mabox Tools"@
    } else if db == "alg-repo"@ {
        "ArchLabs"@
    } else if db == "athena"@ {
        "Athena OS"@
    } else if db == "biglinux-stable"@ || db == "biglinux-testing"@ {
        "BigLinux Repo"@
    } else if db == "bluestar"@ {
        "Bluestar Linux"@
    } else if db == "obarun"@ {
        "Obarun"@
    } else if db == "parabola"@ {
        "Parabola (Libre)"@
    } else if db == "hyperbola"@ {
        "Hyperbola"@
    } else if db == "ctlos"@ {
        "CtlOS"@
    } else if db == "alci-repo"@ {
        "ALCI"@
    } else if db == "aur"@ {
        "AUR (Community)"@
    } else if db == "flatpak"@ {
        "Flatpak (Sandboxed)"@
    } else if db == "monarch"@ {
        "MonARCH Store"@
    } else if db == "local"@ {
        "Installed (Local)"@
    } else {
        "Other repository"@
    }
}

/// The friendly label for the repository `db_name`. The distribution does not change it.
pub fn get_friendly_label(db_name: &str, _distro_id: &str) -> (r: &'static str)
    ensures
        r@ == friendly_label(db_name@),
{
    let d = chars_of(db_name);
    let d = d.as_slice();
    if eq_str(d, "core") || eq_str(d, "extra") || eq_str(d, "community") || eq_str(d, "multilib") {
        "Arch Official"
    } else if eq_str(d, "jupiter") || eq_str(d, "jupiter-rel") || eq_str(d, "jupiter-main") {
        "SteamOS (Jupiter)"
    } else if eq_str(d, "holo") || eq_str(d, "holo-rel") || eq_str(d, "holo-main") {
        "SteamOS (Holo)"
    } else if eq_str(d, "chimeraos") || eq_str(d, "chimeraos-extra") {
        "ChimeraOS (Gaming)"
    } else if eq_str(d, "gamer-os") {
        "GamerOS"
    } else if starts_with(d, "cachyos") {
        "CachyOS (Optimized)"
    } else if eq_str(d, "chaotic-aur") || starts_with(d, "chaotic") {
        "Chaotic-AUR (Pre-built)"
    } else if starts_with(d, "manjaro") {
        "Manjaro"
    } else if starts_with(d, "garuda") {
        "Garuda Tools"
    } else if starts_with(d, "endeavour") {
        "EndeavourOS Tools"
    } else if eq_str(d, "arcolinux_repo") || eq_str(d, "arcolinux_repo_3party") {
        "ArcoLinux Repo"
    } else if eq_str(d, "rebornos") {
        "RebornOS Repo"
    } else if eq_str(d, "blackarch") {
        "BlackArch (Security)"
    } else if eq_str(d, "xerolinux_repo") {
        "XeroLinux Repo"
    } else if eq_str(d, "mabox") {
        "Mabox Tools"
    } else if eq_str(d, "alg-repo") {
        "ArchLabs"
    } else if eq_str(d, "athena") {
        "Athena OS"
    } else if eq_str(d, "biglinux-stable") || eq_str(d, "biglinux-testing") {
        "BigLinux Repo"
    } else if eq_str(d, "bluestar") {
        "Bluestar Linux"
    } else if eq_str(d, "obarun") {
        "Obarun"
    } else if eq_str(d, "parabola") {
        "Parabola (Libre)"
    } else if eq_str(d, "hyperbola") {
        "Hyperbola"
    } else if eq_str(d, "ctlos") {
        "CtlOS"
    } else if eq_str(d, "alci-repo") {
        "ALCI"
    } else if eq_str(d, "aur") {
        "AUR (Community)"
    } else if eq_str(d, "flatpak") {
        "Flatpak (Sandboxed)"
    } else if eq_str(d, "monarch") {
        "MonARCH Store"
    } else if eq_str(d, "local") {
        "Installed (Local)"
    } else {
        "Other repository"
    }
}

/// The UI never shows "Unknown" as a repository label: every repository name, known or
/// not, gets a label other than "Unknown".
pub proof fn law_label_never_unknown(db: Seq<char>)
    ensures
        friendly_label(db) != "Unknown"@,
{
    reveal_strlit("Unknown");
    reveal_strlit("Arch Official");
    reveal_strlit("SteamOS (Jupiter)");
    reveal_strlit("SteamOS (Holo)");
    reveal_strlit("ChimeraOS (Gaming)");
    reveal_strlit("GamerOS");
    reveal_strlit("CachyOS (Optimized)");
    reveal_strlit("Chaotic-AUR (Pre-built)");
    reveal_strlit("Manjaro");
    reveal_strlit("Garuda Tools");
    reveal_strlit("EndeavourOS Tools");
    reveal_strlit("ArcoLinux Repo");
    reveal_strlit("RebornOS Repo");
    reveal_strlit("BlackArch (Security)");
    reveal_strlit("XeroLinux Repo");
    reveal_strlit("Mabox Tools");
    reveal_strlit("ArchLabs");
    reveal_strlit("Athena OS");
    reveal_strlit("BigLinux Repo");
    reveal_strlit("Bluestar Linux");
    reveal_strlit("Obarun");
    reveal_strlit("Parabola (Libre)");
    reveal_strlit("Hyperbola");
    reveal_strlit("CtlOS");
    reveal_strlit("ALCI");
    reveal_strlit("AUR (Community)");
    reveal_strlit("Flatpak (Sandboxed)");
    reveal_strlit("MonARCH Store");
    reveal_strlit("Installed (Local)");
    reveal_strlit("Other repository");
    let l = friendly_label(db);
    assert(l.len() > 0 && l[0] != 'U');
    assert("Unknown"@[0] == 'U');
}

/// Every repository whose name starts with `cachyos` (v3, v4, znver4, core-v4, ...) is
/// labelled as CachyOS's optimized build.
pub proof fn law_cachyos_prefix_label(db: Seq<char>)
    requires
        is_prefix("cachyos"@, db),
    ensures
        friendly_label(db) == "CachyOS (Optimized)"@,
{
    reveal_strlit("cachyos");
    reveal_strlit("core");
    reveal_strlit("extra");
    reveal_strlit("community");
    reveal_strlit("multilib");
    reveal_strlit("jupiter");
    reveal_strlit("jupiter-rel");
    reveal_strlit("jupiter-main");
    reveal_strlit("holo");
    reveal_strlit("holo-rel");
    reveal_strlit("holo-main");
    reveal_strlit("chimeraos");
    reveal_strlit("chimeraos-extra");
    reveal_strlit("gamer-os");
    assert(db.subrange(0, 7)[0] == db[0]);
    assert(db.subrange(0, 7)[1] == db[1]);
    assert(db[0] == 'c' && db[1] == 'a');
    assert(db != "core"@ && db != "extra"@ && db != "community"@ && db != "multilib"@) by {
        assert("core"@[1] == 'o');
        assert("extra"@[0] == 'e');
        assert("community"@[1] == 'o');
        assert("multilib"@[0] == 'm');
    }
    assert(db != "jupiter"@ && db != "jupiter-rel"@ && db != "jupiter-main"@) by {
        assert("jupiter"@[0] == 'j');
        assert("jupiter-rel"@[0] == 'j');
        assert("jupiter-main"@[0] == 'j');
    }
    assert(db != "holo"@ && db != "holo-rel"@ && db != "holo-main"@) by {
        assert("holo"@[0] == 'h');
        assert("holo-rel"@[0] == 'h');
        assert("holo-main"@[0] == 'h');
    }
    assert(db != "chimeraos"@ && db != "chimeraos-extra"@ && db != "gamer-os"@) by {
        assert("chimeraos"@[1] == 'h');
        assert("chimeraos-extra"@[1] == 'h');
        assert("gamer-os"@[0] == 'g');
    }
}

/// The facts about the repository names that tell them apart.
proof fn lemma_label_literals()
    ensures
        "alci-repo"@.len() == 9,
        "alci-repo"@[0] == 'a',
        "alci-repo"@[1] == 'l',
        "alci-repo"@[2] == 'c',
        "alg-repo"@.len() == 8,
        "alg-repo"@[0] == 'a',
        "alg-repo"@[1] == 'l',
        "alg-repo"@[2] == 'g',
        "arcolinux_repo"@.len() == 14,
        "arcolinux_repo"@[0] == 'a',
        "arcolinux_repo"@[1] == 'r',
        "arcolinux_repo"@[2] == 'c',
        "arcolinux_repo_3party"@.len() == 21,
        "arcolinux_repo_3party"@[0] == 'a',
        "arcolinux_repo_3party"@[1] == 'r',
        "arcolinux_repo_3party"@[2] == 'c',
        "athena"@.len() == 6,
        "athena"@[0] == 'a',
        "athena"@[1] == 't',
        "athena"@[2] == 'h',
        "aur"@.len() == 3,
        "aur"@[0] == 'a',
        "aur"@[1] == 'u',
        "aur"@[2] == 'r',
        "biglinux-stable"@.len() == 15,
        "biglinux-stable"@[0] == 'b',
        "biglinux-stable"@[1] == 'i',
        "biglinux-stable"@[2] == 'g',
        "biglinux-testing"@.len() == 16,
        "biglinux-testing"@[0] == 'b',
        "biglinux-testing"@[1] == 'i',
        "biglinux-testing"@[2] == 'g',
        "blackarch"@.len() == 9,
        "blackarch"@[0] == 'b',
        "blackarch"@[1] == 'l',
        "blackarch"@[2] == 'a',
        "bluestar"@.len() == 8,
        "bluestar"@[0] == 'b',
        "bluestar"@[1] == 'l',
        "bluestar"@[2] == 'u',
        "cachyos"@.len() == 7,
        "cachyos"@[0] == 'c',
        "cachyos"@[1] == 'a',
        "cachyos"@[2] == 'c',
        "chaotic"@.len() == 7,
        "chaotic"@[0] == 'c',
        "chaotic"@[1] == 'h',
        "chaotic"@[2] == 'a',
        "chaotic-aur"@.len() == 11,
        "chaotic-aur"@[0] == 'c',
        "chaotic-aur"@[1] == 'h',
        "chaotic-aur"@[2] == 'a',
        "chimeraos"@.len() == 9,
        "chimeraos"@[0] == 'c',
        "chimeraos"@[1] == 'h',
        "chimeraos"@[2] == 'i',
        "chimeraos-extra"@.len() == 15,
        "chimeraos-extra"@[0] == 'c',
        "chimeraos-extra"@[1] == 'h',
        "chimeraos-extra"@[2] == 'i',
        "community"@.len() == 9,
        "community"@[0] == 'c',
        "community"@[1] == 'o',
        "community"@[2] == 'm',
        "core"@.len() == 4,
        "core"@[0] == 'c',
        "core"@[1] == 'o',
        "core"@[2] == 'r',
        "ctlos"@.len() == 5,
        "ctlos"@[0] == 'c',
        "ctlos"@[1] == 't',
        "ctlos"@[2] == 'l',
        "endeavour"@.len() == 9,
        "endeavour"@[0] == 'e',
        "endeavour"@[1] == 'n',
        "endeavour"@[2] == 'd',
        "extra"@.len() == 5,
        "extra"@[0] == 'e',
        "extra"@[1] == 'x',
        "extra"@[2] == 't',
        "flatpak"@.len() == 7,
        "flatpak"@[0] == 'f',
        "flatpak"@[1] == 'l',
        "flatpak"@[2] == 'a',
        "gamer-os"@.len() == 8,
        "gamer-os"@[0] == 'g',
        "gamer-os"@[1] == 'a',
        "gamer-os"@[2] == 'm',
        "garuda"@.len() == 6,
        "garuda"@[0] == 'g',
        "garuda"@[1] == 'a',
        "garuda"@[2] == 'r',
        "holo"@.len() == 4,
        "holo"@[0] == 'h',
        "holo"@[1] == 'o',
        "holo"@[2] == 'l',
        "holo-main"@.len() == 9,
        "holo-main"@[0] == 'h',
        "holo-main"@[1] == 'o',
        "holo-main"@[2] == 'l',
        "holo-rel"@.len() == 8,
        "holo-rel"@[0] == 'h',
        "holo-rel"@[1] == 'o',
        "holo-rel"@[2] == 'l',
        "hyperbola"@.len() == 9,
        "hyperbola"@[0] == 'h',
        "hyperbola"@[1] == 'y',
        "hyperbola"@[2] == 'p',
        "jupiter"@.len() == 7,
        "jupiter"@[0] == 'j',
        "jupiter"@[1] == 'u',
        "jupiter"@[2] == 'p',
        "jupiter-main"@.len() == 12,
        "jupiter-main"@[0] == 'j',
        "jupiter-main"@[1] == 'u',
        "jupiter-main"@[2] == 'p',
        "jupiter-rel"@.len() == 11,
        "jupiter-rel"@[0] == 'j',
        "jupiter-rel"@[1] == 'u',
        "jupiter-rel"@[2] == 'p',
        "local"@.len() == 5,
        "local"@[0] == 'l',
        "local"@[1] == 'o',
        "local"@[2] == 'c',
        "mabox"@.len() == 5,
        "mabox"@[0] == 'm',
        "mabox"@[1] == 'a',
        "mabox"@[2] == 'b',
        "manjaro"@.len() == 7,
        "manjaro"@[0] == 'm',
        "manjaro"@[1] == 'a',
        "manjaro"@[2] == 'n',
        "monarch"@.len() == 7,
        "monarch"@[0] == 'm',
        "monarch"@[1] == 'o',
        "monarch"@[2] == 'n',
        "multilib"@.len() == 8,
        "multilib"@[0] == 'm',
        "multilib"@[1] == 'u',
        "multilib"@[2] == 'l',
        "obarun"@.len() == 6,
        "obarun"@[0] == 'o',
        "obarun"@[1] == 'b',
        "obarun"@[2] == 'a',
        "parabola"@.len() == 8,
        "parabola"@[0] == 'p',
        "parabola"@[1] == 'a',
        "parabola"@[2] == 'r',
        "rebornos"@.len() == 8,
        "rebornos"@[0] == 'r',
        "rebornos"@[1] == 'e',
        "rebornos"@[2] == 'b',
        "xerolinux_repo"@.len() == 14,
        "xerolinux_repo"@[0] == 'x',
        "xerolinux_repo"@[1] == 'e',
        "xerolinux_repo"@[2] == 'r',
{
    reveal_strlit("alci-repo");
    reveal_strlit("alg-repo");
    reveal_strlit("arcolinux_repo");
    reveal_strlit("arcolinux_repo_3party");
    reveal_strlit("athena");
    reveal_strlit("aur");
    reveal_strlit("biglinux-stable");
    reveal_strlit("biglinux-testing");
    reveal_strlit("blackarch");
    reveal_strlit("bluestar");
    reveal_strlit("cachyos");
    reveal_strlit("chaotic");
    reveal_strlit("chaotic-aur");
    reveal_strlit("chimeraos");
    reveal_strlit("chimeraos-extra");
    reveal_strlit("community");
    reveal_strlit("core");
    reveal_strlit("ctlos");
    reveal_strlit("endeavour");
    reveal_strlit("extra");
    reveal_strlit("flatpak");
    reveal_strlit("gamer-os");
    reveal_strlit("garuda");
    reveal_strlit("holo");
    reveal_strlit("holo-main");
    reveal_strlit("holo-rel");
    reveal_strlit("hyperbola");
    reveal_strlit("jupiter");
    reveal_strlit("jupiter-main");
    reveal_strlit("jupiter-rel");
    reveal_strlit("local");
    reveal_strlit("mabox");
    reveal_strlit("manjaro");
    reveal_strlit("monarch");
    reveal_strlit("multilib");
    reveal_strlit("obarun");
    reveal_strlit("parabola");
    reveal_strlit("rebornos");
    reveal_strlit("xerolinux_repo");
}

/// Every repository the store knows by name gets its own label: the four official Arch
/// repositories are "Arch Official", and each other known name its distribution's label.
pub proof fn law_known_repository_labels()
    ensures
        friendly_label("core"@) == "Arch Official"@,
        friendly_label("extra"@) == "Arch Official"@,
        friendly_label("community"@) == "Arch Official"@,
        friendly_label("multilib"@) == "Arch Official"@,
        friendly_label("jupiter"@) == "SteamOS (Jupiter)"@,
        friendly_label("jupiter-rel"@) == "SteamOS (Jupiter)"@,
        friendly_label("jupiter-main"@) == "SteamOS (Jupiter)"@,
        friendly_label("holo"@) == "SteamOS (Holo)"@,
        friendly_label("holo-rel"@) == "SteamOS (Holo)"@,
        friendly_label("holo-main"@) == "SteamOS (Holo)"@,
        friendly_label("chimeraos"@) == "ChimeraOS (Gaming)"@,
        friendly_label("chimeraos-extra"@) == "ChimeraOS (Gaming)"@,
        friendly_label("gamer-os"@) == "GamerOS"@,
        friendly_label("chaotic-aur"@) == "Chaotic-AUR (Pre-built)"@,
        friendly_label("arcolinux_repo"@) == "ArcoLinux Repo"@,
        friendly_label("arcolinux_repo_3party"@) == "ArcoLinux Repo"@,
        friendly_label("rebornos"@) == "RebornOS Repo"@,
        friendly_label("blackarch"@) == "BlackArch (Security)"@,
        friendly_label("xerolinux_repo"@) == "XeroLinux Repo"@,
        friendly_label("mabox"@) == "Mabox Tools"@,
        friendly_label("alg-repo"@) == "ArchLabs"@,
        friendly_label("athena"@) == "Athena OS"@,
        friendly_label("biglinux-stable"@) == "BigLinux Repo"@,
        friendly_label("biglinux-testing"@) == "BigLinux Repo"@,
        friendly_label("bluestar"@) == "Bluestar Linux"@,
        friendly_label("obarun"@) == "Obarun"@,
        friendly_label("parabola"@) == "Parabola (Libre)"@,
        friendly_label("hyperbola"@) == "Hyperbola"@,
        friendly_label("ctlos"@) == "CtlOS"@,
        friendly_label("alci-repo"@) == "ALCI"@,
        friendly_label("aur"@) == "AUR (Community)"@,
        friendly_label("flatpak"@) == "Flatpak (Sandboxed)"@,
        friendly_label("monarch"@) == "MonARCH Store"@,
        friendly_label("local"@) == "Installed (Local)"@,
{
    lemma_label_literals();
    assert(friendly_label("core"@) == "Arch Official"@);
    assert(friendly_label("extra"@) == "Arch Official"@);
    assert(friendly_label("community"@) == "Arch Official"@);
    assert(friendly_label("multilib"@) == "Arch Official"@);
    assert(friendly_label("jupiter"@) == "SteamOS (Jupiter)"@);
    assert(friendly_label("jupiter-rel"@) == "SteamOS (Jupiter)"@);
    assert(friendly_label("jupiter-main"@) == "SteamOS (Jupiter)"@);
    assert(friendly_label("holo"@) == "SteamOS (Holo)"@);
    assert(friendly_label("holo-rel"@) == "SteamOS (Holo)"@);
    assert(friendly_label("holo-main"@) == "SteamOS (Holo)"@);
    assert(friendly_label("chimeraos"@) == "ChimeraOS (Gaming)"@);
    assert(friendly_label("chimeraos-extra"@) == "ChimeraOS (Gaming)"@);
    assert(friendly_label("gamer-os"@) == "GamerOS"@);
    assert(friendly_label("chaotic-aur"@) == "Chaotic-AUR (Pre-built)"@);
    assert(friendly_label("arcolinux_repo"@) == "ArcoLinux Repo"@);
    assert(friendly_label("arcolinux_repo_3party"@) == "ArcoLinux Repo"@);
    assert(friendly_label("rebornos"@) == "RebornOS Repo"@);
    assert(friendly_label("blackarch"@) == "BlackArch (Security)"@);
    assert(friendly_label("xerolinux_repo"@) == "XeroLinux Repo"@);
    assert(friendly_label("mabox"@) == "Mabox Tools"@);
    assert(friendly_label("alg-repo"@) == "ArchLabs"@);
    assert(friendly_label("athena"@) == "Athena OS"@);
    assert(friendly_label("biglinux-stable"@) == "BigLinux Repo"@);
    assert(friendly_label("biglinux-testing"@) == "BigLinux Repo"@);
    assert(friendly_label("bluestar"@) == "Bluestar Linux"@);
    assert(friendly_label("obarun"@) == "Obarun"@);
    assert(friendly_label("parabola"@) == "Parabola (Libre)"@);
    assert(friendly_label("hyperbola"@) == "Hyperbola"@);
    assert(friendly_label("ctlos"@) == "CtlOS"@);
    assert(friendly_label("alci-repo"@) == "ALCI"@);
    assert(friendly_label("aur"@) == "AUR (Community)"@);
    assert(friendly_label("flatpak"@) == "Flatpak (Sandboxed)"@);
    assert(friendly_label("monarch"@) == "MonARCH Store"@);
    assert(friendly_label("local"@) == "Installed (Local)"@);
}

/// Every repository whose name starts with `chaotic` is labelled "Chaotic-AUR (Pre-built)".
pub proof fn law_chaotic_prefix_label(db: Seq<char>)
    requires
        is_prefix("chaotic"@, db),
    ensures
        friendly_label(db) == "Chaotic-AUR (Pre-built)"@,
{
    lemma_label_literals();
    reveal_strlit("chaotic");
    assert(db.subrange(0, 7) == "chaotic"@);
    assert(db[0] == db.subrange(0, 7)[0]);
    assert(db[0] == 'c');
    assert(db[1] == db.subrange(0, 7)[1]);
    assert(db[1] == 'h');
    assert(db[2] == db.subrange(0, 7)[2]);
    assert(db[2] == 'a');
    assert(db.len() >= 7);
    reveal_strlit("cachyos");
    if is_prefix("cachyos"@, db) {
        assert(db.subrange(0, 7)[0] == db[0]);
        assert(db.subrange(0, 7)[1] == db[1]);
        assert(db.subrange(0, 7)[2] == db[2]);
        assert("cachyos"@[0] == 'c' && "cachyos"@[1] == 'a' && "cachyos"@[2] == 'c');
    }
}

/// Every repository whose name starts with `manjaro` is labelled "Manjaro".
pub proof fn law_manjaro_prefix_label(db: Seq<char>)
    requires
        is_prefix("manjaro"@, db),
    ensures
        friendly_label(db) == "Manjaro"@,
{
    lemma_label_literals();
    reveal_strlit("manjaro");
    assert(db.subrange(0, 7) == "manjaro"@);
    assert(db[0] == db.subrange(0, 7)[0]);
    assert(db[0] == 'm');
    assert(db[1] == db.subrange(0, 7)[1]);
    assert(db[1] == 'a');
    assert(db[2] == db.subrange(0, 7)[2]);
    assert(db[2] == 'n');
    assert(db.len() >= 7);
    reveal_strlit("cachyos");
    if is_prefix("cachyos"@, db) {
        assert(db.subrange(0, 7)[0] == db[0]);
        assert(db.subrange(0, 7)[1] == db[1]);
        assert(db.subrange(0, 7)[2] == db[2]);
        assert("cachyos"@[0] == 'c' && "cachyos"@[1] == 'a' && "cachyos"@[2] == 'c');
    }
    reveal_strlit("chaotic");
    if is_prefix("chaotic"@, db) {
        assert(db.subrange(0, 7)[0] == db[0]);
        assert(db.subrange(0, 7)[1] == db[1]);
        assert(db.subrange(0, 7)[2] == db[2]);
        assert("chaotic"@[0] == 'c' && "chaotic"@[1] == 'h' && "chaotic"@[2] == 'a');
    }
}

/// Every repository whose name starts with `garuda` is labelled "Garuda Tools".
pub proof fn law_garuda_prefix_label(db: Seq<char>)
    requires
        is_prefix("garuda"@, db),
    ensures
        friendly_label(db) == "Garuda Tools"@,
{
    lemma_label_literals();
    reveal_strlit("garuda");
    assert(db.subrange(0, 6) == "garuda"@);
    assert(db[0] == db.subrange(0, 6)[0]);
    assert(db[0] == 'g');
    assert(db[1] == db.subrange(0, 6)[1]);
    assert(db[1] == 'a');
    assert(db[2] == db.subrange(0, 6)[2]);
    assert(db[2] == 'r');
    assert(db.len() >= 6);
    reveal_strlit("cachyos");
    if is_prefix("cachyos"@, db) {
        assert(db.subrange(0, 7)[0] == db[0]);
        assert(db.subrange(0, 7)[1] == db[1]);
        assert(db.subrange(0, 7)[2] == db[2]);
        assert("cachyos"@[0] == 'c' && "cachyos"@[1] == 'a' && "cachyos"@[2] == 'c');
    }
    reveal_strlit("chaotic");
    if is_prefix("chaotic"@, db) {
        assert(db.subrange(0, 7)[0] == db[0]);
        assert(db.subrange(0, 7)[1] == db[1]);
        assert(db.subrange(0, 7)[2] == db[2]);
        assert("chaotic"@[0] == 'c' && "chaotic"@[1] == 'h' && "chaotic"@[2] == 'a');
    }
    reveal_strlit("manjaro");
    if is_prefix("manjaro"@, db) {
        assert(db.subrange(0, 7)[0] == db[0]);
        assert(db.subrange(0, 7)[1] == db[1]);
        assert(db.subrange(0, 7)[2] == db[2]);
        assert("manjaro"@[0] == 'm' && "manjaro"@[1] == 'a' && "manjaro"@[2] == 'n');
    }
}

/// Every repository whose name starts with `endeavour` is labelled "EndeavourOS Tools".
pub proof fn law_endeavour_prefix_label(db: Seq<char>)
    requires
        is_prefix("endeavour"@, db),
    ensures
        friendly_label(db) == "EndeavourOS Tools"@,
{
    lemma_label_literals();
    reveal_strlit("endeavour");
    assert(db.subrange(0, 9) == "endeavour"@);
    assert(db[0] == db.subrange(0, 9)[0]);
    assert(db[0] == 'e');
    assert(db[1] == db.subrange(0, 9)[1]);
    assert(db[1] == 'n');
    assert(db[2] == db.subrange(0, 9)[2]);
    assert(db[2] == 'd');
    assert(db.len() >= 9);
    reveal_strlit("cachyos");
    if is_prefix("cachyos"@, db) {
        assert(db.subrange(0, 7)[0] == db[0]);
        assert(db.subrange(0, 7)[1] == db[1]);
        assert(db.subrange(0, 7)[2] == db[2]);
        assert("cachyos"@[0] == 'c' && "cachyos"@[1] == 'a' && "cachyos"@[2] == 'c');
    }
    reveal_strlit("chaotic");
    if is_prefix("chaotic"@, db) {
        assert(db.subrange(0, 7)[0] == db[0]);
        assert(db.subrange(0, 7)[1] == db[1]);
        assert(db.subrange(0, 7)[2] == db[2]);
        assert("chaotic"@[0] == 'c' && "chaotic"@[1] == 'h' && "chaotic"@[2] == 'a');
    }
    reveal_strlit("manjaro");
    if is_prefix("manjaro"@, db) {
        assert(db.subrange(0, 7)[0] == db[0]);
        assert(db.subrange(0, 7)[1] == db[1]);
        assert(db.subrange(0, 7)[2] == db[2]);
        assert("manjaro"@[0] == 'm' && "manjaro"@[1] == 'a' && "manjaro"@[2] == 'n');
    }
    reveal_strlit("garuda");
    if is_prefix("garuda"@, db) {
        assert(db.subrange(0, 6)[0] == db[0]);
        assert(db.subrange(0, 6)[1] == db[1]);
        assert(db.subrange(0, 6)[2] == db[2]);
        assert("garuda"@[0] == 'g' && "garuda"@[1] == 'a' && "garuda"@[2] == 'r');
    }
}

/// A repository the store does not know, by name or by prefix, is shown as "Other
/// repository".
pub proof fn law_unknown_repository_label(db: Seq<char>)
    requires
        db != "core"@,
        db != "extra"@,
        db != "community"@,
        db != "multilib"@,
        db != "jupiter"@,
        db != "jupiter-rel"@,
        db != "jupiter-main"@,
        db != "holo"@,
        db != "holo-rel"@,
        db != "holo-main"@,
        db != "chimeraos"@,
        db != "chimeraos-extra"@,
        db != "gamer-os"@,
        db != "chaotic-aur"@,
        db != "arcolinux_repo"@,
        db != "arcolinux_repo_3party"@,
        db != "rebornos"@,
        db != "blackarch"@,
        db != "xerolinux_repo"@,
        db != "mabox"@,
        db != "alg-repo"@,
        db != "athena"@,
        db != "biglinux-stable"@,
        db != "biglinux-testing"@,
        db != "bluestar"@,
        db != "obarun"@,
        db != "parabola"@,
        db != "hyperbola"@,
        db != "ctlos"@,
        db != "alci-repo"@,
        db != "aur"@,
        db != "flatpak"@,
        db != "monarch"@,
        db != "local"@,
        !is_prefix("cachyos"@, db),
        !is_prefix("chaotic"@, db),
        !is_prefix("manjaro"@, db),
        !is_prefix("garuda"@, db),
        !is_prefix("endeavour"@, db),
    ensures
        friendly_label(db) == "Other repository"@,
{
}

} // verus!
