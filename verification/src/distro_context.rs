//! Distribution detection and capabilities. The store is distribution-aware: Manjaro,
//! Garuda (which ships Chaotic-AUR), CachyOS, EndeavourOS and Arch are told apart by
//! `/etc/os-release`, whose text the caller reads and hands in.
use vstd::prelude::*;
use crate::text::{
    chars_of, eq, eq_str, index_of, lines, lower_chars, lowercase, slice_copy, split_lines,
    split_words, string_of, string_views, trim_char, trim_char_chars, views, words, lemma_index_of_bound,
    find_char,
};

verus! {

/// The distributions the store knows.
#[derive(Debug, Clone)]
pub enum DistroId {
    Arch,
    Manjaro,
    EndeavourOS,
    Garuda,
    CachyOS,
    Unknown(String),
}

/// A distribution identity with the unknown name as characters.
pub enum DistroIdView {
    Arch,
    Manjaro,
    EndeavourOS,
    Garuda,
    CachyOS,
    Unknown(Seq<char>),
}

impl View for DistroId {
    type V = DistroIdView;

    open spec fn view(&self) -> DistroIdView {
        match self {
            DistroId::Arch => DistroIdView::Arch,
            DistroId::Manjaro => DistroIdView::Manjaro,
            DistroId::EndeavourOS => DistroIdView::EndeavourOS,
            DistroId::Garuda => DistroIdView::Garuda,
            DistroId::CachyOS => DistroIdView::CachyOS,
            DistroId::Unknown(s) => DistroIdView::Unknown(s@),
        }
    }
}

/// How far the user may change the base repositories.
#[derive(Debug, Clone, Copy, PartialEq, Eq, Structural)]
pub enum RepoManagementMode {
    /// User can do anything (Arch)
    Unlocked,
    /// User cannot change base repos (Manjaro)
    Locked,
    /// Pre-configured but flexible (CachyOS/Garuda)
    Managed,
}

/// Whether Chaotic-AUR may be used.
#[derive(Debug, Clone, Copy, PartialEq, Eq, Structural)]
pub enum ChaoticSupport {
    /// Can be enabled (Arch/EndeavourOS)
    Allowed,
    /// Glibc mismatch (Manjaro)
    Blocked,
    /// Pre-installed: Garuda and CachyOS ship Chaotic-AUR in their default pacman.conf
    Native,
}

/// What the store may do on a distribution.
#[derive(Debug, Clone)]
pub struct DistroCapabilities {
    pub repo_management: RepoManagementMode,
    pub chaotic_aur_support: ChaoticSupport,
    /// "binary_first" | "source_first"
    pub default_search_sort: String,
    pub description: String,
    pub icon_key: String,
}

/// The host distribution with its capabilities.
#[derive(Debug, Clone)]
pub struct DistroContext {
    pub id: DistroId,
    pub pretty_name: String,
    pub capabilities: DistroCapabilities,
    /// "v1" | "v2" | "v3" | "v4"
    pub cpu_tier: String,
    pub active_repos: Vec<String>,
}

/// The identifier string of a distribution, as used for label and feed lookup.
pub open spec fn id_str_of(id: DistroIdView) -> Seq<char> {
    match id {
        DistroIdView::Manjaro => "manjaro"@,
        DistroIdView::Garuda => "garuda"@,
        DistroIdView::CachyOS => "cachyos"@,
        DistroIdView::EndeavourOS => "endeavouros"@,
        DistroIdView::Arch => "arch"@,
        DistroIdView::Unknown(s) => s,
    }
}

/// `c` holds the capabilities of the distribution `id`.
pub open spec fn capabilities_of(c: DistroCapabilities, id: DistroIdView) -> bool {
    match id {
        DistroIdView::Manjaro => c.repo_management == RepoManagementMode::Locked
            && c.chaotic_aur_support == ChaoticSupport::Blocked && c.default_search_sort@
            == "source_first"@ && c.description@ == "Manjaro Stability Guard Active."@
            && c.icon_key@ == "shield"@,
        DistroIdView::Garuda => c.repo_management == RepoManagementMode::Managed
            && c.chaotic_aur_support == ChaoticSupport::Native && c.default_search_sort@
            == "binary_first"@ && c.description@ == "Garuda Gaming Edition."@ && c.icon_key@
            == "eagle"@,
        DistroIdView::CachyOS => c.repo_management == RepoManagementMode::Managed
            && c.chaotic_aur_support == ChaoticSupport::Native && c.default_search_sort@
            == "binary_first"@ && c.description@ == "Powered by CachyOS."@ && c.icon_key@
            == "rocket"@,
        DistroIdView::EndeavourOS => c.repo_management == RepoManagementMode::Unlocked
            && c.chaotic_aur_support == ChaoticSupport::Allowed && c.default_search_sort@
            == "binary_first"@ && c.description@ == "EndeavourOS Detected."@ && c.icon_key@
            == "ship"@,
        DistroIdView::Arch => c.repo_management == RepoManagementMode::Unlocked
            && c.chaotic_aur_support == ChaoticSupport::Allowed && c.default_search_sort@
            == "binary_first"@ && c.description@ == "Standard Arch System."@ && c.icon_key@
            == "arch"@,
        DistroIdView::Unknown(_) => c.repo_management == RepoManagementMode::Unlocked
            && c.chaotic_aur_support == ChaoticSupport::Allowed && c.default_search_sort@
            == "binary_first"@ && c.description@ == "Unknown Arch-based Distro."@ && c.icon_key@
            == "arch"@,
    }
}

/// The `ID`, `ID_LIKE` and `PRETTY_NAME` values after reading the lines `ls` of
/// os-release: the last assignment of each key wins, `ID` and `ID_LIKE` are lower-cased,
/// and surrounding double quotes are removed.
pub open spec fn os_release_fields(ls: Seq<Seq<char>>) -> (Seq<char>, Seq<char>, Seq<char>)
    decreases ls.len(),
{
    if ls.len() == 0 {
        (Seq::empty(), Seq::empty(), Seq::empty())
    } else {
        let prev = os_release_fields(ls.drop_last());
        let line = ls.last();
        let i = index_of(line, '=');
        if i < line.len() {
            let key = line.take(i as int);
            let value = trim_char(line.skip(i + 1 as int), '"');
            if key == "ID"@ {
                (lowercase(value), prev.1, prev.2)
            } else if key == "ID_LIKE"@ {
                (prev.0, lowercase(value), prev.2)
            } else if key == "PRETTY_NAME"@ {
                (prev.0, prev.1, value)
            } else {
                prev
            }
        } else {
            prev
        }
    }
}

/// The distribution named by the lower-cased `ID` value and the words of `ID_LIKE`:
/// explicit IDs first, then "arch"/"archlinux" refined by `ID_LIKE`, then `ID_LIKE` alone.
pub open spec fn distro_id_of(id: Seq<char>, like: Seq<Seq<char>>) -> DistroIdView {
    if id == "manjaro"@ {
        DistroIdView::Manjaro
    } else if id == "garuda"@ {
        DistroIdView::Garuda
    } else if id == "cachyos"@ {
        DistroIdView::CachyOS
    } else if id == "endeavouros"@ {
        DistroIdView::EndeavourOS
    } else if id == "arch"@ || id == "archlinux"@ {
        if like.contains("cachyos"@) {
            DistroIdView::CachyOS
        } else if like.contains("garuda"@) {
            DistroIdView::Garuda
        } else {
            DistroIdView::Arch
        }
    } else if like.contains("cachyos"@) {
        DistroIdView::CachyOS
    } else if like.contains("garuda"@) {
        DistroIdView::Garuda
    } else if like.contains("manjaro"@) {
        DistroIdView::Manjaro
    } else if like.contains("endeavouros"@) {
        DistroIdView::EndeavourOS
    } else if like.contains("arch"@) {
        DistroIdView::Arch
    } else {
        DistroIdView::Unknown(id)
    }
}

/// The distribution and pretty name that the os-release text `content` describes.
pub open spec fn os_release_identity(content: Seq<char>) -> (DistroIdView, Seq<char>) {
    let f = os_release_fields(lines(content));
    (distro_id_of(f.0, words(f.1)), f.2)
}

/// The CPU optimization tier for the supported instruction sets.
pub open spec fn cpu_tier_of(avx512f: bool, avx2: bool, sse42: bool) -> Seq<char> {
    if avx512f {
        "v4"@
    } else if avx2 {
        "v3"@
    } else if sse42 {
        "v2"@
    } else {
        "v1"@
    }
}

/// The repositories in use: the registered sync databases, or `core` and `extra` when
/// none could be registered.
pub open spec fn active_repos_of(syncdbs: Seq<Seq<char>>) -> Seq<Seq<char>> {
    if syncdbs.len() == 0 {
        seq!["core"@, "extra"@]
    } else {
        syncdbs
    }
}

fn text(s: &str) -> (r: String)
    ensures
        r@ == s@,
{
    String::from_str(s)
}

/// The capabilities of the distribution `id`.
pub fn capabilities_for(id: &DistroId) -> (c: DistroCapabilities)
    ensures
        capabilities_of(c, id@),
{
    match id {
        DistroId::Manjaro => DistroCapabilities {
            repo_management: RepoManagementMode::Locked,
            chaotic_aur_support: ChaoticSupport::Blocked,
            default_search_sort: text("source_first"),
            description: text("Manjaro Stability Guard Active."),
            icon_key: text("shield"),
        },
        DistroId::Garuda => DistroCapabilities {
            repo_management: RepoManagementMode::Managed,
            chaotic_aur_support: ChaoticSupport::Native,
            default_search_sort: text("binary_first"),
            description: text("Garuda Gaming Edition."),
            icon_key: text("eagle"),
        },
        DistroId::CachyOS => DistroCapabilities {
            repo_management: RepoManagementMode::Managed,
            chaotic_aur_support: ChaoticSupport::Native,
            default_search_sort: text("binary_first"),
            description: text("Powered by CachyOS."),
            icon_key: text("rocket"),
        },
        DistroId::EndeavourOS => DistroCapabilities {
            repo_management: RepoManagementMode::Unlocked,
            chaotic_aur_support: ChaoticSupport::Allowed,
            default_search_sort: text("binary_first"),
            description: text("EndeavourOS Detected."),
            icon_key: text("ship"),
        },
        DistroId::Arch => DistroCapabilities {
            repo_management: RepoManagementMode::Unlocked,
            chaotic_aur_support: ChaoticSupport::Allowed,
            default_search_sort: text("binary_first"),
            description: text("Standard Arch System."),
            icon_key: text("arch"),
        },
        DistroId::Unknown(_) => DistroCapabilities {
            repo_management: RepoManagementMode::Unlocked,
            chaotic_aur_support: ChaoticSupport::Allowed,
            default_search_sort: text("binary_first"),
            description: text("Unknown Arch-based Distro."),
            icon_key: text("arch"),
        },
    }
}

/// Whether one of the words `ws` is `w`.
fn has_word(ws: &Vec<Vec<char>>, w: &str) -> (r: bool)
    ensures
        r == views(ws@).contains(w@),
{
    let mut i: usize = 0;
    while i < ws.len()
        invariant
            0 <= i <= ws@.len(),
            forall|j: int| 0 <= j < i ==> views(ws@)[j] != w@,
        decreases ws@.len() - i,
    {
        if eq_str(ws[i].as_slice(), w) {
            assert(views(ws@)[i as int] == w@);
            return true;
        }
        i += 1;
    }
    false
}

/// The distribution named by a lower-cased `ID` and the words of `ID_LIKE`.
pub fn distro_id_from(id: &[char], like: &Vec<Vec<char>>) -> (r: DistroId)
    ensures
        r@ == distro_id_of(id@, views(like@)),
{
    if eq_str(id, "manjaro") {
        DistroId::Manjaro
    } else if eq_str(id, "garuda") {
        DistroId::Garuda
    } else if eq_str(id, "cachyos") {
        DistroId::CachyOS
    } else if eq_str(id, "endeavouros") {
        DistroId::EndeavourOS
    } else if eq_str(id, "arch") || eq_str(id, "archlinux") {
        if has_word(like, "cachyos") {
            DistroId::CachyOS
        } else if has_word(like, "garuda") {
            DistroId::Garuda
        } else {
            DistroId::Arch
        }
    } else if has_word(like, "cachyos") {
        DistroId::CachyOS
    } else if has_word(like, "garuda") {
        DistroId::Garuda
    } else if has_word(like, "manjaro") {
        DistroId::Manjaro
    } else if has_word(like, "endeavouros") {
        DistroId::EndeavourOS
    } else if has_word(like, "arch") {
        DistroId::Arch
    } else {
        DistroId::Unknown(string_of(id))
    }
}

/// The distribution and pretty name described by the os-release text `content`; for
/// `None` (the file could not be read) an unknown distribution named "Unknown Linux".
pub fn detect_os_release(content: Option<&str>) -> (r: (DistroId, String))
    ensures
        match content {
            Some(c) => r.0@ == os_release_identity(c@).0 && r.1@ == os_release_identity(c@).1,
            None => r.0@ == DistroIdView::Unknown("unknown"@) && r.1@ == "Unknown Linux"@,
        },
{
    let content = match content {
        Some(c) => c,
        None => {
            return (DistroId::Unknown(text("unknown")), text("Unknown Linux"));
        },
    };
    let cv = chars_of(content);
    let ls = split_lines(cv.as_slice());
    let mut id_val: Vec<char> = Vec::new();
    let mut id_like: Vec<char> = Vec::new();
    let mut name_val: Vec<char> = Vec::new();
    let mut i: usize = 0;
    while i < ls.len()
        invariant
            0 <= i <= ls@.len(),
            views(ls@) == lines(cv@),
            os_release_fields(views(ls@).take(i as int)) == (id_val@, id_like@, name_val@),
        decreases ls@.len() - i,
    {
        let line = ls[i].as_slice();
        let ghost prefix = views(ls@).take(i as int);
        let ghost next = views(ls@).take(i + 1);
        assert(next.drop_last() == prefix);
        assert(next.last() == line@);
        proof {
            lemma_index_of_bound(line@, '=');
        }
        match find_char(line, '=') {
            Some(eq_at) => {
                let key = slice_copy(line, 0, eq_at);
                let raw_value = slice_copy(line, eq_at + 1, line.len());
                let value = trim_char_chars(raw_value.as_slice(), '"');
                assert(key@ == line@.take(eq_at as int));
                assert(raw_value@ == line@.skip(eq_at + 1 as int));
                if eq_str(key.as_slice(), "ID") {
                    let s = string_of(value.as_slice());
                    id_val = lower_chars(s.as_str());
                } else if eq_str(key.as_slice(), "ID_LIKE") {
                    let s = string_of(value.as_slice());
                    id_like = lower_chars(s.as_str());
                } else if eq_str(key.as_slice(), "PRETTY_NAME") {
                    name_val = value;
                }
            },
            None => {},
        }
        i += 1;
    }
    assert(views(ls@).take(ls@.len() as int) == views(ls@));
    let like_words = split_words(id_like.as_slice());
    let id = distro_id_from(id_val.as_slice(), &like_words);
    (id, string_of(name_val.as_slice()))
}

/// The CPU optimization tier ("v1" to "v4") for the instruction sets the CPU supports.
pub fn detect_cpu_tier(avx512f: bool, avx2: bool, sse42: bool) -> (r: String)
    ensures
        r@ == cpu_tier_of(avx512f, avx2, sse42),
{
    if avx512f {
        text("v4")
    } else if avx2 {
        text("v3")
    } else if sse42 {
        text("v2")
    } else {
        text("v1")
    }
}

/// The active repositories: the registered sync databases, or `core` and `extra` when none
/// could be registered.
pub fn discover_active_repos(syncdbs: Vec<String>) -> (r: Vec<String>)
    ensures
        string_views(r@) == active_repos_of(string_views(syncdbs@)),
{
    if syncdbs.len() == 0 {
        let mut repos: Vec<String> = Vec::new();
        repos.push(text("core"));
        repos.push(text("extra"));
        assert(string_views(repos@) =~= seq!["core"@, "extra"@]);
        repos
    } else {
        syncdbs
    }
}

impl DistroContext {
    /// Whether the host may enable Chaotic-AUR: everywhere but where it is blocked
    /// (Manjaro).
    pub fn is_chaotic_compatible(&self) -> (r: bool)
        ensures
            r == (self.capabilities.chaotic_aur_support != ChaoticSupport::Blocked),
    {
        match self.capabilities.chaotic_aur_support {
            ChaoticSupport::Blocked => false,
            _ => true,
        }
    }

    /// The distribution identifier used for label and feed lookup.
    pub fn id_str(&self) -> (r: &str)
        ensures
            r@ == id_str_of(self.id@),
    {
        match &self.id {
            DistroId::Manjaro => "manjaro",
            DistroId::Garuda => "garuda",
            DistroId::CachyOS => "cachyos",
            DistroId::EndeavourOS => "endeavouros",
            DistroId::Arch => "arch",
            DistroId::Unknown(s) => s.as_str(),
        }
    }

    /// The context of the host described by its os-release text (`None` when it could not
    /// be read), its CPU's instruction sets and its registered sync databases.
    pub fn new(os_release: Option<&str>, avx512f: bool, avx2: bool, sse42: bool, syncdbs: Vec<String>) -> (r: Self)
        ensures
            match os_release {
                Some(c) => r.id@ == os_release_identity(c@).0 && r.pretty_name@
                    == os_release_identity(c@).1,
                None => r.id@ == DistroIdView::Unknown("unknown"@) && r.pretty_name@
                    == "Unknown Linux"@,
            },
            capabilities_of(r.capabilities, r.id@),
            r.cpu_tier@ == cpu_tier_of(avx512f, avx2, sse42),
            string_views(r.active_repos@) == active_repos_of(string_views(syncdbs@)),
    {
        let (id, name) = detect_os_release(os_release);
        let capabilities = capabilities_for(&id);
        let cpu_tier = detect_cpu_tier(avx512f, avx2, sse42);
        let active_repos = discover_active_repos(syncdbs);
        DistroContext { id, pretty_name: name, capabilities, cpu_tier, active_repos }
    }
}

/// Chaotic-AUR may be enabled on every detected distribution except Manjaro, where it is
/// blocked.
pub proof fn law_chaotic_blocked_only_on_manjaro(c: DistroCapabilities, id: DistroIdView)
    requires
        capabilities_of(c, id),
    ensures
        (c.chaotic_aur_support == ChaoticSupport::Blocked) <==> id is Manjaro,
        id is Manjaro ==> c.repo_management == RepoManagementMode::Locked,
{
}

/// Garuda and CachyOS ship Chaotic-AUR themselves: their support is native.
pub proof fn law_native_chaotic_on_garuda_and_cachyos(c: DistroCapabilities, id: DistroIdView)
    requires
        capabilities_of(c, id),
        id is Garuda || id is CachyOS,
    ensures
        c.chaotic_aur_support == ChaoticSupport::Native,
{
}

/// An explicit `ID` names its own distribution whatever `ID_LIKE` says: manjaro, garuda,
/// cachyos and endeavouros each map to their own distribution.
pub proof fn law_explicit_id_decides(like: Seq<Seq<char>>)
    ensures
        distro_id_of("manjaro"@, like) == DistroIdView::Manjaro,
        distro_id_of("garuda"@, like) == DistroIdView::Garuda,
        distro_id_of("cachyos"@, like) == DistroIdView::CachyOS,
        distro_id_of("endeavouros"@, like) == DistroIdView::EndeavourOS,
{
    reveal_strlit("manjaro");
    reveal_strlit("garuda");
    reveal_strlit("cachyos");
    reveal_strlit("endeavouros");
    assert("garuda"@ != "manjaro"@) by {
        assert("garuda"@[0] != "manjaro"@[0]);
    }
    assert("cachyos"@ != "manjaro"@ && "cachyos"@ != "garuda"@) by {
        assert("cachyos"@[0] != "manjaro"@[0]);
        assert("cachyos"@[0] != "garuda"@[0]);
    }
    assert("endeavouros"@ != "manjaro"@ && "endeavouros"@ != "garuda"@ && "endeavouros"@
        != "cachyos"@) by {
        assert("endeavouros"@[0] != "manjaro"@[0]);
        assert("endeavouros"@[0] != "garuda"@[0]);
        assert("endeavouros"@[0] != "cachyos"@[0]);
    }
}

/// A plain Arch `ID` ("arch" or "archlinux") is refined by `ID_LIKE`: CachyOS when it
/// names cachyos, else Garuda when it names garuda, else Arch.
pub proof fn law_arch_id_refined_by_like(id: Seq<char>, like: Seq<Seq<char>>)
    requires
        id == "arch"@ || id == "archlinux"@,
    ensures
        like.contains("cachyos"@) ==> distro_id_of(id, like) == DistroIdView::CachyOS,
        !like.contains("cachyos"@) && like.contains("garuda"@) ==> distro_id_of(id, like)
            == DistroIdView::Garuda,
        !like.contains("cachyos"@) && !like.contains("garuda"@) ==> distro_id_of(id, like)
            == DistroIdView::Arch,
{
    reveal_strlit("manjaro");
    reveal_strlit("garuda");
    reveal_strlit("cachyos");
    reveal_strlit("endeavouros");
    reveal_strlit("arch");
    reveal_strlit("archlinux");
    assert(id != "manjaro"@ && id != "garuda"@ && id != "cachyos"@ && id != "endeavouros"@) by {
        assert(id[0] == 'a');
    }
}

/// An `ID` the store does not know is read through `ID_LIKE`, in order: cachyos, garuda,
/// manjaro, endeavouros, then arch; with none of them the distribution is unknown under
/// its own `ID`.
pub proof fn law_unknown_id_read_through_like(id: Seq<char>, like: Seq<Seq<char>>)
    requires
        id != "manjaro"@,
        id != "garuda"@,
        id != "cachyos"@,
        id != "endeavouros"@,
        id != "arch"@,
        id != "archlinux"@,
    ensures
        like.contains("cachyos"@) ==> distro_id_of(id, like) == DistroIdView::CachyOS,
        !like.contains("cachyos"@) && like.contains("garuda"@) ==> distro_id_of(id, like) == DistroIdView::Garuda,
        !like.contains("cachyos"@) && !like.contains("garuda"@) && like.contains("manjaro"@)
            ==> distro_id_of(id, like) == DistroIdView::Manjaro,
        !like.contains("cachyos"@) && !like.contains("garuda"@) && !like.contains("manjaro"@)
            && like.contains("endeavouros"@) ==> distro_id_of(id, like) == DistroIdView::EndeavourOS,
        !like.contains("cachyos"@) && !like.contains("garuda"@) && !like.contains("manjaro"@)
            && !like.contains("endeavouros"@) && like.contains("arch"@) ==> distro_id_of(id, like)
            == DistroIdView::Arch,
        !like.contains("cachyos"@) && !like.contains("garuda"@) && !like.contains("manjaro"@)
            && !like.contains("endeavouros"@) && !like.contains("arch"@) ==> distro_id_of(id, like)
            == DistroIdView::Unknown(id),
{
}

} // verus!
